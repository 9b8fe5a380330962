use prize::action::{Action, Memo};
use prize::address::Address;
use prize::context::CallContext;
use prize::lottery::contract::{status_in, Lottery, LotteryContract, Pick};
use prize::lottery::error::Error;
use prize::lottery::fee_policy::FeePolicy;
use prize::lottery::instance_info::{Instance, InstanceInfo, PrizeInfo, SponsorInfo};
use prize::lottery::instance_status::InstanceStatus;

fn lot_owner() -> Address {
    Address::new(1, 1)
}

fn lot_sponsor() -> Address {
    Address::new(1, 2)
}

fn lot_p1() -> Address {
    Address::new(1, 3)
}

fn lot_p2() -> Address {
    Address::new(1, 4)
}

fn lot_p3() -> Address {
    Address::new(1, 5)
}

fn lot_call(caller: Address, now: u64) -> CallContext {
    CallContext::new(caller, lot_owner(), now, 0).unwrap()
}

fn lot_create(contract: &mut LotteryContract, sponsor: Address, now: u64, duration: u64) -> Result<u32, Error> {
    contract.create_instance(
        &lot_call(sponsor, now),
        b"TKN-abcdef".to_vec(),
        2,
        300,
        duration,
        b"pseudo".to_vec(),
        b"url".to_vec(),
        b"pic".to_vec(),
        b"free".to_vec(),
    )
}

fn lot_with_players() -> LotteryContract {
    let mut contract = LotteryContract::new();
    assert_eq!(contract.init(), Ok(()));
    assert_eq!(lot_create(&mut contract, lot_sponsor(), 10, 10), Ok(1));
    assert_eq!(lot_create(&mut contract, lot_p1(), 10, 100), Ok(2));
    assert_eq!(lot_create(&mut contract, lot_sponsor(), 10, 10), Ok(3));
    for player in [lot_p1(), lot_p2(), lot_p3()] {
        assert_eq!(contract.play(&lot_call(player, 15), 0, 1), Ok(()));
    }
    assert_eq!(contract.play(&lot_call(lot_p2(), 15), 0, 2), Ok(()));
    contract
}

#[test]
fn lottery_init_changes_nothing() {
    let mut contract = lot_with_players();
    let before = contract.clone();
    assert_eq!(contract.init(), Ok(()));
    assert_eq!(contract, before);
    let fresh = LotteryContract::new();
    assert_eq!(fresh.get_nb_instances(), 0);
    assert_eq!(fresh.get_fees(), 0);
    assert_eq!(fresh.get_fees_pool(), 0);
}

#[test]
fn lottery_create_records_the_terms() {
    let mut contract = LotteryContract::new();
    assert_eq!(lot_create(&mut contract, lot_sponsor(), 10, 0), Err(Error::NullDuration));
    assert_eq!(lot_create(&mut contract, lot_sponsor(), u64::MAX, 1), Err(Error::Overflow));
    assert_eq!(lot_create(&mut contract, lot_sponsor(), 10, 5), Ok(1));
    assert_eq!(
        contract.instances[0],
        Instance {
            iid: 1,
            info: InstanceInfo {
                sponsor_address: lot_sponsor(),
                sponsor_info: SponsorInfo {
                    pseudo: b"pseudo".to_vec(),
                    url: b"url".to_vec(),
                    picture_link: b"pic".to_vec(),
                    free_text: b"free".to_vec(),
                },
                prize_info: PrizeInfo {
                    token_identifier: b"TKN-abcdef".to_vec(),
                    token_nonce: 2,
                    token_amount: 300,
                },
                deadline: 15,
                claimed_status: false,
                winner_address: Address::zero(),
            },
            players: Vec::new(),
        }
    );
    contract.iid_counter = u32::MAX;
    assert_eq!(lot_create(&mut contract, lot_sponsor(), 10, 5), Err(Error::Overflow));
    assert_eq!(contract.get_nb_instances(), 1);
}

#[test]
fn lottery_status_follows_the_record() {
    let mut contract = lot_with_players();
    assert_eq!(contract.get_instance_status(20, 0), InstanceStatus::NotExisting);
    assert_eq!(contract.get_instance_status(20, 1), InstanceStatus::Running);
    assert_eq!(contract.get_instance_status(21, 1), InstanceStatus::Ended);
    assert_eq!(contract.trigger(&lot_call(lot_sponsor(), 21), 1, 7), Ok(()));
    assert_eq!(contract.get_instance_status(21, 1), InstanceStatus::Triggered);
    assert_eq!(contract.get_instance_status(5, 1), InstanceStatus::Triggered);
    assert_eq!(contract.claim_prize(&lot_call(lot_p2(), 30), 1), Ok(()));
    assert_eq!(contract.get_instance_status(30, 1), InstanceStatus::Claimed);
    assert_eq!(InstanceStatus::VARIANT_COUNT, 5);
    let policy = FeePolicy { fee_amount_egld: 3, sponsor_reward_percent: 40 };
    assert_eq!(policy.clone(), policy);
}

#[test]
fn lottery_trigger_picks_the_player_at_the_remainder() {
    let contract = lot_with_players();
    let winner_with = |random: u32| {
        let mut copy = contract.clone();
        assert_eq!(copy.trigger(&lot_call(lot_owner(), 21), 1, random), Ok(()));
        copy.instances[0].info.winner_address
    };
    assert_eq!(winner_with(0), lot_p1());
    assert_eq!(winner_with(1), lot_p2());
    assert_eq!(winner_with(2), lot_p3());
    assert_eq!(winner_with(3), lot_p1());
    assert_eq!(winner_with(u32::MAX), lot_p1());
    assert_eq!(contract.instances[0].winner(4), lot_p2());
    assert_eq!(contract.instances[2].winner(4), lot_sponsor());
}

#[test]
fn lottery_trigger_refusals() {
    let mut contract = lot_with_players();
    let before = contract.clone();
    assert_eq!(contract.trigger(&lot_call(lot_sponsor(), 20), 1, 0), Err(Error::WrongState));
    assert_eq!(contract.trigger(&lot_call(lot_sponsor(), 21), 9, 0), Err(Error::WrongState));
    assert_eq!(contract.trigger(&lot_call(lot_p2(), 21), 1, 0), Err(Error::BadCaller));
    assert_eq!(contract, before);
    assert_eq!(contract.trigger(&lot_call(lot_sponsor(), 21), 3, 0), Ok(()));
    assert_eq!(contract.has_won(3, lot_sponsor()), Ok(true));
    assert_eq!(contract.trigger(&lot_call(lot_sponsor(), 21), 3, 0), Err(Error::WrongState));
}

#[test]
fn lottery_trigger_ended_draws_all_that_are_due() {
    let mut contract = lot_with_players();
    assert_eq!(
        contract.trigger_ended_instances(&lot_call(lot_p1(), 50), 4),
        Err(Error::CallerNotAllowed)
    );
    assert_eq!(contract.trigger_ended_instances(&lot_call(lot_owner(), 50), 4), Ok(()));
    assert_eq!(contract.instances[0].info.winner_address, lot_p2());
    assert_eq!(contract.instances[1].info.winner_address, Address::zero());
    assert_eq!(contract.instances[2].info.winner_address, lot_sponsor());
    assert_eq!(
        contract.get_instance_ids(50, &vec![InstanceStatus::Triggered]),
        vec![1, 3]
    );
    let before = contract.clone();
    assert_eq!(contract.trigger_ended_instances(&lot_call(lot_owner(), 50), 5), Ok(()));
    assert_eq!(contract, before);
}

#[test]
fn lottery_play_collects_the_fee() {
    let mut contract = lot_with_players();
    let admin = lot_call(lot_owner(), 1);
    assert_eq!(contract.set_fees(&lot_call(lot_p1(), 1), 5), Err(Error::CallerNotAllowed));
    assert_eq!(contract.set_fees(&admin, 5), Ok(()));
    assert_eq!(contract.get_fees(), 5);
    assert_eq!(contract.play(&lot_call(lot_p1(), 15), 5, 9), Err(Error::NotActive));
    assert_eq!(contract.play(&lot_call(lot_p1(), 21), 5, 1), Err(Error::NotActive));
    assert_eq!(contract.play(&lot_call(lot_p2(), 15), 5, 2), Err(Error::AlreadyPlayed));
    assert_eq!(contract.play(&lot_call(lot_p1(), 15), 4, 2), Err(Error::WrongFees));
    assert_eq!(contract.play(&lot_call(lot_p1(), 15), 5, 2), Ok(()));
    assert_eq!(contract.play(&lot_call(lot_p3(), 15), 5, 2), Ok(()));
    assert_eq!(contract.get_fees_pool(), 10);
    assert!(contract.has_played(2, lot_p3()));
    assert!(!contract.has_played(3, lot_p3()));
    assert!(!contract.has_played(8, lot_p3()));
    assert_eq!(contract.claim_fees(&lot_call(lot_p1(), 1)), Err(Error::CallerNotAllowed));
    assert_eq!(contract.claim_fees(&admin), Ok(()));
    assert_eq!(
        contract.take_journal(),
        vec![Action::DirectEgld { to: lot_owner(), amount: 10, memo: Memo::FeesClaimed }]
    );
    assert_eq!(contract.get_fees_pool(), 0);
    assert_eq!(contract.claim_fees(&admin), Err(Error::NoFees));

    assert_eq!(contract.set_fees(&admin, u128::MAX), Ok(()));
    assert_eq!(lot_create(&mut contract, lot_sponsor(), 10, 100), Ok(4));
    assert_eq!(contract.play(&lot_call(lot_p1(), 15), u128::MAX, 4), Ok(()));
    assert_eq!(contract.play(&lot_call(lot_p2(), 15), u128::MAX, 4), Err(Error::Overflow));
}

#[test]
fn lottery_claim_pays_the_winner_once() {
    let mut contract = lot_with_players();
    assert_eq!(contract.claim_prize(&lot_call(lot_p1(), 30), 1), Err(Error::WrongState));
    assert_eq!(contract.claim_prize(&lot_call(lot_p1(), 30), 6), Err(Error::WrongState));
    assert_eq!(contract.trigger(&lot_call(lot_owner(), 30), 1, 2), Ok(()));
    assert_eq!(contract.claim_prize(&lot_call(lot_p1(), 30), 1), Err(Error::NotWinner));
    assert_eq!(contract.claim_prize(&lot_call(lot_p3(), 30), 1), Ok(()));
    assert_eq!(
        contract.take_journal(),
        vec![Action::Direct {
            to: lot_p3(),
            token_identifier: b"TKN-abcdef".to_vec(),
            token_nonce: 2,
            amount: 300,
            memo: Memo::PrizeClaimed,
        }]
    );
    assert_eq!(contract.claim_prize(&lot_call(lot_p3(), 30), 1), Err(Error::WrongState));
}

#[test]
fn lottery_clean_keeps_what_is_not_claimed() {
    let mut contract = lot_with_players();
    assert_eq!(contract.trigger_ended_instances(&lot_call(lot_owner(), 50), 0), Ok(()));
    assert_eq!(contract.claim_prize(&lot_call(lot_p1(), 60), 1), Ok(()));
    assert_eq!(contract.claim_prize(&lot_call(lot_sponsor(), 60), 3), Ok(()));
    assert_eq!(
        contract.clean_claimed_instances(&lot_call(lot_p1(), 60)),
        Err(Error::CallerNotAllowed)
    );
    assert_eq!(contract.get_nb_instances(), 3);
    assert_eq!(contract.clean_claimed_instances(&lot_call(lot_owner(), 60)), Ok(()));
    assert_eq!(contract.get_nb_instances(), 1);
    assert_eq!(contract.instances[0].iid, 2);
    assert_eq!(contract.get_instance_status(60, 1), InstanceStatus::NotExisting);
    assert!(!contract.has_played(1, lot_p1()));
    assert_eq!(contract.clean_claimed_instances(&lot_call(lot_owner(), 60)), Ok(()));
    assert_eq!(contract.get_nb_instances(), 1);
    assert_eq!(lot_create(&mut contract, lot_sponsor(), 70, 10), Ok(4));
}

#[test]
fn lottery_views_list_and_tell() {
    let mut contract = lot_with_players();
    assert_eq!(contract.trigger(&lot_call(lot_owner(), 30), 1, 1), Ok(()));
    let ids = |filter: Vec<InstanceStatus>| contract.get_instance_ids(30, &filter);
    assert_eq!(ids(vec![]), Vec::<u32>::new());
    assert_eq!(ids(vec![InstanceStatus::Ended]), vec![3]);
    assert_eq!(ids(vec![InstanceStatus::Running, InstanceStatus::Triggered]), vec![1, 2]);
    assert_eq!(ids(vec![InstanceStatus::Running, InstanceStatus::Running]), vec![2]);
    assert_eq!(ids(vec![InstanceStatus::Running; 5]), vec![2]);
    assert_eq!(ids(vec![InstanceStatus::Running; 6]), Vec::<u32>::new());
    assert!(contract.is_instance_with_status(30, InstanceStatus::Triggered));
    assert!(!contract.is_instance_with_status(30, InstanceStatus::Claimed));
    assert_eq!(contract.get_sponsor_instances(lot_sponsor()), vec![1, 3]);
    assert_eq!(contract.get_sponsor_instances(lot_p1()), vec![2]);
    assert_eq!(contract.get_player_instances(lot_p2()), vec![1, 2]);
    assert_eq!(contract.get_player_instances(lot_sponsor()), Vec::<u32>::new());
    assert_eq!(contract.get_remaining_time(15, 2), Ok(95));
    assert_eq!(contract.get_remaining_time(110, 2), Ok(0));
    assert_eq!(contract.get_remaining_time(15, 7), Err(Error::NoSuchInstance));
    assert_eq!(contract.has_won(1, lot_p2()), Ok(true));
    assert_eq!(contract.has_won(1, lot_p1()), Ok(false));
    assert_eq!(contract.has_won(7, lot_p1()), Err(Error::NoSuchInstance));
    let (info, status, players) = contract.get_instance_info(30, 1).unwrap();
    assert_eq!(info, contract.instances[0].info);
    assert_eq!(status, InstanceStatus::Triggered);
    assert_eq!(players, 3);
    assert_eq!(contract.get_instance_info(30, 7).unwrap_err(), Error::NoSuchInstance);
    assert!(status_in(&vec![InstanceStatus::Ended], InstanceStatus::Ended));
    assert!(!status_in(&vec![InstanceStatus::Ended], InstanceStatus::Running));
    assert!(Pick::Sponsor(lot_sponsor()).test(&contract.instances[0], 30));
    assert!(!Pick::Player(lot_sponsor()).test(&contract.instances[0], 30));
    assert!(Pick::Status(&vec![InstanceStatus::Triggered]).test(&contract.instances[0], 30));
}

#[test]
fn lottery_errors_have_their_messages() {
    let expected = [
        (Error::CallerNotAllowed, "Caller address not allowed"),
        (Error::NullDuration, "duration cannot be null"),
        (Error::WrongState, "Instance is not in the good state"),
        (Error::BadCaller, "Instance can only be triggered by its sponsor or by administrator"),
        (Error::NotActive, "Instance is not active"),
        (Error::AlreadyPlayed, "Player has already played"),
        (Error::WrongFees, "Wrong fees amount"),
        (Error::NotWinner, "Prize can only be claimed by the winner"),
        (Error::NoSuchInstance, "Instance does not exists"),
        (Error::NoFees, "No fees to claim"),
        (Error::Overflow, "Value out of range"),
    ];
    for (error, message) in expected {
        assert_eq!(error.message(), message);
    }
}
