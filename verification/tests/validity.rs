use prize::address::{all_distinct, none_zero, Address};
use prize::address_map::AddressMap;
use prize::context::CallContext;
use prize::egld_loto::contract::{Loto as EgldLoto, LotoContract as EgldLotoContract};
use prize::fee::{FeeModule, FeePolicy};
use prize::lottery::contract::{Lottery, LotteryContract};
use prize::parameter::ParameterModule;
use prize::prize::Prize;
use prize::registry::is_ascending;
use prize::security::SecurityModule;
use prize::state::PrizeContract;
use prize::ticket_loto::contract::{count_tickets, Loto as TicketLoto, LotoContract as TicketLotoContract};
use prize::ticket_loto::loto_info::LotoInfo;

fn valid_owner() -> Address {
    Address::new(7, 1)
}

fn valid_ann() -> Address {
    Address::new(7, 2)
}

fn valid_ben() -> Address {
    Address::new(7, 3)
}

fn valid_call(caller: Address, now: u64) -> CallContext {
    CallContext::new(caller, valid_owner(), now, 0).unwrap()
}

fn valid_prize() -> PrizeContract {
    let mut contract = PrizeContract::new();
    assert!(contract.is_valid());
    assert_eq!(contract.init(), Ok(()));
    assert!(contract.is_valid());
    let admin = valid_call(valid_owner(), 1);
    assert_eq!(contract.set_fee_policy(&admin, 10, 60, 40), Ok(()));
    assert_eq!(contract.set_param_manual_claim(&admin, true), Ok(()));
    for sponsor in [valid_ann(), valid_ben(), valid_ann()] {
        let created = contract.create_instance(
            &valid_call(sponsor, 100),
            b"EGLD".to_vec(),
            0,
            5,
            60,
            Vec::new(),
            Vec::new(),
            Vec::new(),
            Vec::new(),
            Vec::new(),
            Vec::new(),
            Vec::new(),
            Vec::new(),
            false,
            false,
        );
        assert!(created.is_ok());
        assert!(contract.is_valid());
    }
    assert_eq!(contract.play(&valid_call(valid_ben(), 110), 10, 1, Some(valid_ann())), Ok(1));
    assert!(contract.is_valid());
    assert_eq!(contract.play(&valid_call(valid_ann(), 110), 10, 1, None), Ok(2));
    assert_eq!(contract.trigger(&valid_call(valid_ann(), 161), 1, 2), Ok(()));
    assert!(contract.is_valid());
    assert_eq!(contract.claim_prize(&valid_call(valid_ann(), 170), 1), Ok(()));
    assert!(contract.is_valid());
    assert_eq!(contract.add_addr_blacklist(&admin, valid_ben()), Ok(()));
    assert!(contract.is_valid());
    contract
}

#[test]
fn the_prize_contract_stays_valid() {
    let mut contract = valid_prize();
    let admin = valid_call(valid_owner(), 200);
    assert_eq!(contract.count_open(valid_ann()), 1);
    assert_eq!(contract.count_open(valid_ben()), 1);
    assert_eq!(contract.count_open(valid_owner()), 0);
    assert_eq!(contract.distributed_prizes(&admin, &vec![0, 0]), Ok(()));
    assert!(contract.is_valid());
    assert_eq!(contract.count_open(valid_ann()), 0);
    assert_eq!(contract.disable_instance(&admin, 2, true), Err(prize::error::Error::AlreadyDrawn));
    assert_eq!(contract.clean_claimed_instances(&admin, &Vec::new()), Ok(()));
    assert!(contract.is_valid());
    assert_eq!(contract.rm_addr_blacklist(&admin, valid_ben()), Ok(()));
    assert_eq!(contract.claim_fees(&admin), Ok(()));
    assert_eq!(contract.claim_link_rewards(&valid_call(valid_ann(), 201)), Ok(()));
    assert!(contract.is_valid());
}

#[test]
fn a_broken_prize_state_is_told_apart() {
    let good = valid_prize();
    let broken = |change: &dyn Fn(&mut PrizeContract)| {
        let mut copy = good.clone();
        change(&mut copy);
        copy.is_valid()
    };
    assert!(broken(&|_| {}));
    assert!(!broken(&|c| c.instances.swap(0, 1)));
    assert!(!broken(&|c| c.instances[1].iid = 1));
    assert!(!broken(&|c| c.iid_counter = 2));
    assert!(!broken(&|c| c.instances[0].iid = 0));
    assert!(!broken(&|c| c.instances[1].info.sponsor_info.address = Address::zero()));
    assert!(!broken(&|c| c.instances[1].state.reward_info.percent = 101));
    assert!(!broken(&|c| c.instances[1].state.claimed_status = true));
    assert!(broken(&|c| c.instances[0].players.push(valid_ben())));
    assert!(!broken(&|c| c.instances[0].players.push(Address::zero())));
    assert!(!broken(&|c| c.instances[1].state.winner_info.ticket_number = 5));
    assert!(broken(&|c| c.instances[0].state.winner_info.ticket_number = 5));
    let list = |iid: u32, player: Address| prize::player::PlayerList { iid, players: vec![player] };
    assert!(broken(&|c| c.unlisted_players.push(list(9, valid_ben()))));
    assert!(!broken(&|c| c.unlisted_players.push(list(9, Address::zero()))));
    assert!(!broken(&|c| c.unlisted_players.push(list(2, valid_ben()))));
    assert!(!broken(&|c| {
        c.unlisted_players.push(list(9, valid_ben()));
        c.unlisted_players.push(list(9, valid_ann()));
    }));
    assert!(broken(&|c| {
        c.unlisted_players.push(list(9, valid_ben()));
        c.unlisted_players.push(list(8, valid_ben()));
    }));
    assert!(!broken(&|c| c.address_blacklist.push(valid_ben())));
    assert!(!broken(&|c| {
        c.fee_policy = Some(FeePolicy {
            fee_amount_egld: 1,
            sponsor_reward_percent: 60,
            link_reward_percent: 41,
        })
    }));
    assert!(!broken(&|c| {
        c.fee_policy = Some(FeePolicy {
            fee_amount_egld: 1,
            sponsor_reward_percent: 200,
            link_reward_percent: 100,
        })
    }));
    assert!(broken(&|c| c.fee_policy = None));
    assert!(!broken(&|c| c.nb_instances_running.set(valid_ann(), 2)));
    assert!(!broken(&|c| c.nb_instances_running.set(valid_owner(), 1)));
    assert!(broken(&|c| c.nb_instances_running.set(valid_owner(), 0)));
    assert!(!broken(&|c| c.nb_instances_running.entries.clear()));
    assert!(!broken(&|c| c.nb_instances_running.entries.push((valid_ann(), 1))));
    assert!(!broken(&|c| c.link_reward_pool.entries.push((valid_ann(), 1))));
    assert!(!broken(&|c| c.instances[1].state.winner_info.address = valid_ben()));
    assert!(broken(&|c| c.instances[1].state.disabled = true));
    assert!(broken(&|c| c.fee_pool = 12345));
}

#[test]
fn lists_are_checked_for_order_and_repeats() {
    let a = Address::new(1, 0);
    let b = Address::new(0, 1);
    assert!(all_distinct(&vec![]));
    assert!(all_distinct(&vec![a, b]));
    assert!(!all_distinct(&vec![a, b, a]));
    assert!(!all_distinct(&vec![b, b]));
    assert!(none_zero(&vec![a, b]));
    assert!(!none_zero(&vec![a, Address::zero()]));
    assert!(none_zero(&vec![]));
    let good = valid_prize();
    assert!(is_ascending(&good.instances));
    assert!(is_ascending(&good.instances[..1].to_vec()));
    assert!(is_ascending(&Vec::<prize::instance::Instance>::new()));
    let mut swapped = good.instances.clone();
    swapped.swap(1, 2);
    assert!(!is_ascending(&swapped));
    let mut repeated = good.instances.clone();
    repeated[2].iid = 2;
    assert!(!is_ascending(&repeated));
    let mut map: AddressMap<u128> = AddressMap::new();
    assert!(map.is_valid());
    map.set(a, 1);
    map.set(b, 1);
    assert!(map.is_valid());
    map.entries.push((a, 2));
    assert!(!map.is_valid());
}

#[test]
fn the_lotteries_stay_valid() {
    let mut lottery = LotteryContract::new();
    assert!(lottery.is_valid());
    let created = lottery.create_instance(
        &valid_call(valid_ann(), 10),
        b"EGLD".to_vec(),
        0,
        1,
        10,
        Vec::new(),
        Vec::new(),
        Vec::new(),
        Vec::new(),
    );
    assert_eq!(created, Ok(1));
    assert_eq!(lottery.play(&valid_call(valid_ben(), 11), 0, 1), Ok(()));
    assert_eq!(lottery.trigger(&valid_call(valid_ann(), 21), 1, 6), Ok(()));
    assert_eq!(lottery.claim_prize(&valid_call(valid_ben(), 22), 1), Ok(()));
    assert!(lottery.is_valid());
    let mut broken = lottery.clone();
    broken.instances[0].players.push(Address::zero());
    assert!(!broken.is_valid());
    let mut ahead = lottery.clone();
    ahead.iid_counter = 0;
    assert!(!ahead.is_valid());
    let mut orphan = lottery.clone();
    orphan.instances[0].info.sponsor_address = Address::zero();
    assert!(!orphan.is_valid());
    let mut twice = lottery.clone();
    let copy = twice.instances[0].clone();
    twice.instances.push(copy);
    assert!(!twice.is_valid());
    assert_eq!(lottery.clean_claimed_instances(&valid_call(valid_owner(), 30)), Ok(()));
    assert!(lottery.is_valid());

    let mut loto = EgldLotoContract::new();
    assert!(loto.is_valid());
    let made = loto.create_instance(
        &valid_call(valid_ann(), 10),
        5,
        10,
        Vec::new(),
        Vec::new(),
        Vec::new(),
        Vec::new(),
    );
    assert_eq!(made, Ok(1));
    assert_eq!(loto.play(&valid_call(valid_ben(), 11), 1), Ok(()));
    assert_eq!(loto.trigger_ended_instances(&valid_call(valid_owner(), 21), 6), Ok(()));
    assert!(loto.is_valid());
    loto.instances[0].iid = 0;
    assert!(!loto.is_valid());
}

#[test]
fn the_ticket_pool_stays_valid() {
    let mut pool = TicketLotoContract::new();
    assert!(pool.is_valid());
    assert_eq!(pool.start(&valid_call(valid_owner(), 0), 100, 50, 10), Ok(()));
    assert!(pool.is_valid());
    for buyer in [valid_ann(), valid_ben(), valid_ann(), valid_ann()] {
        assert_eq!(pool.buy_ticket(&valid_call(buyer, 1), 100), Ok(()));
        assert!(pool.is_valid());
    }
    assert_eq!(count_tickets(&pool.ticket_holder, valid_ann()), 3);
    assert_eq!(count_tickets(&pool.ticket_holder, valid_ben()), 1);
    assert_eq!(count_tickets(&pool.ticket_holder, valid_owner()), 0);
    assert_eq!(pool.get_fee(&valid_call(valid_owner(), 2)), Ok(()));
    assert!(pool.is_valid());

    let broken = |change: &dyn Fn(&mut TicketLotoContract)| {
        let mut copy = pool.clone();
        change(&mut copy);
        (copy.is_consistent(), copy.is_valid())
    };
    assert_eq!(broken(&|_| {}), (true, true));
    assert_eq!(broken(&|c| c.holder_number_of_tickets.set(valid_ann(), 2)), (false, false));
    assert_eq!(broken(&|c| c.holder_number_of_tickets.set(valid_owner(), 1)), (false, false));
    assert_eq!(broken(&|c| c.holder_last_ticket_number.set(valid_ann(), 2)), (false, false));
    assert_eq!(broken(&|c| c.holder_last_ticket_number.set(valid_ann(), 4)), (false, false));
    assert_eq!(broken(&|c| c.holder_last_ticket_number.set(valid_ann(), 1)), (false, false));
    assert_eq!(broken(&|c| c.holder_last_ticket_number.set(valid_owner(), 1)), (false, false));
    assert_eq!(broken(&|c| c.holder_last_ticket_number.set(valid_owner(), 0)), (true, true));
    assert_eq!(broken(&|c| c.ticket_holder.push(valid_ben())), (false, false));
    assert_eq!(broken(&|c| c.loto_info = None), (false, false));
    let terms = pool.loto_info.unwrap();
    assert_eq!(terms.prize_pool, 360);
    assert_eq!(
        broken(&|c| c.loto_info = Some(LotoInfo { prize_pool: 359, ..terms })),
        (true, false)
    );
    assert_eq!(
        broken(&|c| c.loto_info = Some(LotoInfo { fee_percent: 101, ..terms })),
        (false, false)
    );
    assert_eq!(
        broken(&|c| c.loto_info = Some(LotoInfo { fee_pool: 77, ..terms })),
        (true, true)
    );
    assert!(LotoInfo { ticket_price: 5, fee_percent: 100, prize_pool: 0, ..terms }.is_valid());
    assert!(!LotoInfo { ticket_price: 5, fee_percent: 100, prize_pool: 1, ..terms }.is_valid());
    assert!(!LotoInfo { ticket_price: u128::MAX, fee_percent: 0, ..terms }.is_valid());

    assert_eq!(pool.cancel(&valid_call(valid_owner(), 3)), Ok(()));
    assert!(pool.is_valid());
    assert!(pool.is_consistent());
}
