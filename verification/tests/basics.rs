use prize::action::{Action, Memo};
use prize::address::Address;
use prize::address_map::AddressMap;
use prize::amount::{checked_credit, percent_of};
use prize::fee::{link_percent, split, FeeSplit};
use prize::instance::{Instance, InstanceInfo, InstanceState, PrizeInfo, RewardInfo, SponsorInfo, WinnerInfo};
use prize::registry::{find, Numbered};
use prize::state::PrizeContract;

#[test]
fn percent_of_rounds_down() {
    assert_eq!(percent_of(0, 50), 0);
    assert_eq!(percent_of(1, 99), 0);
    assert_eq!(percent_of(1, 100), 1);
    assert_eq!(percent_of(199, 50), 99);
    assert_eq!(percent_of(999, 33), 329);
    assert_eq!(percent_of(1_000, 0), 0);
    assert_eq!(percent_of(u128::MAX, 100), u128::MAX);
    assert_eq!(percent_of(u128::MAX, 1), u128::MAX / 100);
    assert_eq!(percent_of(u128::MAX, 50), u128::MAX / 2);
    assert_eq!(percent_of(u128::MAX - 55, 99), (u128::MAX - 55) / 100 * 99);
}

#[test]
fn checked_credit_reports_what_does_not_fit() {
    assert_eq!(checked_credit(1, 2), Some(3));
    assert_eq!(checked_credit(u128::MAX, 0), Some(u128::MAX));
    assert_eq!(checked_credit(u128::MAX - 1, 1), Some(u128::MAX));
    assert_eq!(checked_credit(u128::MAX, 1), None);
    assert_eq!(checked_credit(1, u128::MAX), None);
}

#[test]
fn the_referrer_gets_at_most_what_the_sponsor_leaves() {
    assert_eq!(link_percent(20, 30, false), 0);
    assert_eq!(link_percent(20, 30, true), 20);
    assert_eq!(link_percent(70, 30, true), 70);
    assert_eq!(link_percent(71, 30, true), 70);
    assert_eq!(link_percent(100, 100, true), 0);
    assert_eq!(link_percent(100, 0, true), 100);
}

#[test]
fn a_split_adds_up_to_the_fees() {
    assert_eq!(split(1_000, 30, 20), FeeSplit { sponsor: 300, link: 200, owner: 500 });
    assert_eq!(split(999, 33, 10), FeeSplit { sponsor: 329, link: 99, owner: 571 });
    assert_eq!(split(7, 0, 15), FeeSplit { sponsor: 0, link: 1, owner: 6 });
    assert_eq!(split(0, 50, 50), FeeSplit { sponsor: 0, link: 0, owner: 0 });
    assert_eq!(split(3, 50, 50), FeeSplit { sponsor: 1, link: 1, owner: 1 });
    for fees in [1u128, 17, 99, 100, 101, 12_345, u128::MAX] {
        for (first, second) in [(0u8, 0u8), (100, 0), (0, 100), (33, 33), (1, 99), (60, 40)] {
            let parts = split(fees, first, second);
            assert_eq!(parts.sponsor, percent_of(fees, first));
            assert_eq!(parts.link, percent_of(fees, second));
            assert_eq!(parts.owner, fees - parts.sponsor - parts.link);
        }
    }
}

#[test]
fn an_address_map_holds_one_value_for_each_address() {
    let a = Address::new(1, 1);
    let b = Address::new(1, 2);
    let mut map: AddressMap<u32> = AddressMap::new();
    assert_eq!(map.get(a), None);
    assert_eq!(map.get_or(a, 9), 9);
    map.set(a, 1);
    map.set(b, 2);
    assert_eq!(map.get(a), Some(1));
    assert_eq!(map.get(b), Some(2));
    map.set(a, 3);
    assert_eq!(map.get(a), Some(3));
    assert_eq!(map.get_or(b, 9), 2);
    assert_eq!(map.entries, vec![(a, 3), (b, 2)]);
    map.set(a, 0);
    assert_eq!(map.get(a), Some(0));
    assert_eq!(map.get_or(a, 9), 0);
}

fn basics_record(iid: u32) -> Instance {
    Instance {
        iid,
        info: InstanceInfo {
            sponsor_info: SponsorInfo {
                address: Address::new(0, 9),
                pseudo: vec![1, 2],
                url1: Vec::new(),
                url2: Vec::new(),
                url3: Vec::new(),
                reserved: Vec::new(),
                graphic: Vec::new(),
                logo_link: Vec::new(),
                free_text: vec![3],
            },
            prize_info: PrizeInfo { token_identifier: vec![4, 5], token_nonce: 1, token_amount: 2 },
            premium: false,
            charity: true,
            deadline: 3,
        },
        state: InstanceState {
            claimed_status: false,
            reward_info: RewardInfo { percent: 0, pool: 0 },
            winner_info: WinnerInfo { ticket_number: 0, address: Address::zero() },
            disabled: false,
        },
        players: vec![Address::new(0, 7)],
    }
}

#[test]
fn a_record_is_found_by_its_number() {
    let list = vec![basics_record(2), basics_record(5), basics_record(6)];
    assert_eq!(find(&list, 2), Some(0));
    assert_eq!(find(&list, 5), Some(1));
    assert_eq!(find(&list, 6), Some(2));
    assert_eq!(find(&list, 1), None);
    assert_eq!(find(&list, 4), None);
    assert_eq!(find(&list, 7), None);
    assert_eq!(find(&Vec::<Instance>::new(), 1), None);
    assert_eq!(list[1].iid(), 5);
    assert!(list[0].has_player(Address::new(0, 7)));
    assert!(!list[0].has_player(Address::new(0, 8)));
    let mut contract = PrizeContract::new();
    contract.instances = list;
    contract.iid_counter = 6;
    assert_eq!(contract.find(5), Some(1));
    assert_eq!(contract.find(3), None);
}

#[test]
fn copies_hold_the_same_bytes() {
    let record = basics_record(1);
    assert_eq!(record.info.duplicate(), record.info);
    assert_eq!(record.info.sponsor_info.duplicate(), record.info.sponsor_info);
    assert_eq!(record.info.prize_info.duplicate(), record.info.prize_info);
}

#[test]
fn the_journal_is_handed_over_whole() {
    let mut contract = PrizeContract::new();
    let first = Action::DirectEgld { to: Address::new(0, 1), amount: 1, memo: Memo::SendPrize };
    let second = Action::DirectEgld { to: Address::new(0, 2), amount: 2, memo: Memo::LotoFee };
    contract.enqueue(first.clone());
    contract.enqueue(second.clone());
    assert_eq!(contract.take_journal(), vec![first, second]);
    assert!(contract.journal.is_empty());
    assert!(contract.take_journal().is_empty());
}
