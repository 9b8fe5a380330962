use prize::address::Address;
use prize::context::CallContext;
use prize::error::Error;
use prize::fee::FeeModule;
use prize::instance::{
    status_in, Instance, InstanceData, InstanceInfo, InstanceModule, InstanceState, InstanceStatus,
    PrizeInfo, PrizeType, RewardInfo, SponsorInfo, WinnerInfo,
};
use prize::parameter::ParameterModule;
use prize::player::PlayerModule;
use prize::prize::{GetInfoStruct, Prize};
use prize::security::SecurityModule;
use prize::sponsor::SponsorModule;
use prize::state::PrizeContract;

fn view_owner() -> Address {
    Address::new(5, 1)
}

fn view_ann() -> Address {
    Address::new(5, 2)
}

fn view_ben() -> Address {
    Address::new(5, 3)
}

fn view_cat() -> Address {
    Address::new(5, 4)
}

fn view_call(caller: Address, now: u64) -> CallContext {
    CallContext::new(caller, view_owner(), now, 1).unwrap()
}

fn view_create(contract: &mut PrizeContract, sponsor: Address, now: u64, duration: u64) -> u32 {
    contract
        .create_instance(
            &view_call(sponsor, now),
            b"EGLD".to_vec(),
            0,
            10,
            duration,
            b"p".to_vec(),
            b"u1".to_vec(),
            Vec::new(),
            Vec::new(),
            Vec::new(),
            Vec::new(),
            b"logo".to_vec(),
            b"text".to_vec(),
            false,
            false,
        )
        .unwrap()
}

/// Five instances, seen at time 1000: 1 claimed, 2 triggered, 3 ended,
/// 4 running, 5 disabled.
fn view_five() -> PrizeContract {
    let mut contract = PrizeContract::new();
    assert_eq!(contract.init(), Ok(()));
    let admin = view_call(view_owner(), 1);
    assert_eq!(view_create(&mut contract, view_ann(), 100, 100), 1);
    assert_eq!(view_create(&mut contract, view_ben(), 100, 100), 2);
    assert_eq!(view_create(&mut contract, view_ann(), 100, 100), 3);
    assert_eq!(view_create(&mut contract, view_ann(), 100, 5_000), 4);
    assert_eq!(view_create(&mut contract, view_ben(), 100, 5_000), 5);
    assert_eq!(contract.play(&view_call(view_cat(), 150), 0, 1, None), Ok(1));
    assert_eq!(contract.play(&view_call(view_cat(), 150), 0, 2, None), Ok(1));
    assert_eq!(contract.play(&view_call(view_ben(), 150), 0, 2, None), Ok(2));
    assert_eq!(contract.play(&view_call(view_cat(), 150), 0, 4, None), Ok(1));
    assert_eq!(contract.trigger(&view_call(view_ann(), 300), 1, 1), Ok(()));
    assert_eq!(contract.set_param_manual_claim(&admin, true), Ok(()));
    assert_eq!(contract.trigger(&view_call(view_ben(), 300), 2, 2), Ok(()));
    assert_eq!(contract.disable_instance(&admin, 5, true), Ok(()));
    contract
}

#[test]
fn the_status_follows_from_the_state_in_order_of_precedence() {
    let contract = view_five();
    assert_eq!(contract.get_instance_status(1000, 0), InstanceStatus::NotExisting);
    assert_eq!(contract.get_instance_status(1000, 1), InstanceStatus::Claimed);
    assert_eq!(contract.get_instance_status(1000, 2), InstanceStatus::Triggered);
    assert_eq!(contract.get_instance_status(1000, 3), InstanceStatus::Ended);
    assert_eq!(contract.get_instance_status(1000, 4), InstanceStatus::Running);
    assert_eq!(contract.get_instance_status(1000, 5), InstanceStatus::Disabled);
    assert_eq!(contract.get_instance_status(1000, 6), InstanceStatus::NotExisting);
    assert_eq!(contract.get_instance_status(200, 3), InstanceStatus::Running);
    assert_eq!(contract.get_instance_status(201, 3), InstanceStatus::Ended);
    assert_eq!(contract.get_instance_status(9_000, 4), InstanceStatus::Ended);
    assert_eq!(contract.get_instance_status(9_000, 1), InstanceStatus::Claimed);
}

#[test]
fn a_record_decides_its_status_by_the_first_fact_that_applies() {
    let record = |disabled: bool, claimed: bool, winner: Address, deadline: u64| Instance {
        iid: 1,
        info: InstanceInfo {
            sponsor_info: SponsorInfo {
                address: view_ann(),
                pseudo: Vec::new(),
                url1: Vec::new(),
                url2: Vec::new(),
                url3: Vec::new(),
                reserved: Vec::new(),
                graphic: Vec::new(),
                logo_link: Vec::new(),
                free_text: Vec::new(),
            },
            prize_info: PrizeInfo { token_identifier: Vec::new(), token_nonce: 0, token_amount: 1 },
            premium: false,
            charity: false,
            deadline,
        },
        state: InstanceState {
            claimed_status: claimed,
            reward_info: RewardInfo { percent: 0, pool: 0 },
            winner_info: WinnerInfo { ticket_number: 0, address: winner },
            disabled,
        },
        players: Vec::new(),
    };
    let nobody = Address::zero();
    assert_eq!(record(true, true, view_ben(), 5).status(9), InstanceStatus::Disabled);
    assert_eq!(record(true, false, nobody, 50).status(9), InstanceStatus::Disabled);
    assert_eq!(record(false, true, view_ben(), 50).status(9), InstanceStatus::Claimed);
    assert_eq!(record(false, true, nobody, 5).status(9), InstanceStatus::Claimed);
    assert_eq!(record(false, false, view_ben(), 5).status(9), InstanceStatus::Triggered);
    assert_eq!(record(false, false, view_ben(), 50).status(9), InstanceStatus::Triggered);
    assert_eq!(record(false, false, nobody, 8).status(9), InstanceStatus::Ended);
    assert_eq!(record(false, false, nobody, 9).status(9), InstanceStatus::Running);
    assert_eq!(record(false, false, nobody, 50).status(9), InstanceStatus::Running);
    assert_eq!(InstanceStatus::VARIANT_COUNT, 6);
    assert_eq!(PrizeType::VARIANT_COUNT, 3);
    assert!(PrizeType::EgldPrize < PrizeType::EsdtPrize);
    assert!(PrizeType::EsdtPrize < PrizeType::UnknownPrize);
    assert!(InstanceStatus::NotExisting < InstanceStatus::Running);
    assert!(InstanceStatus::Claimed < InstanceStatus::Disabled);
}

#[test]
fn instances_are_listed_by_status() {
    let contract = view_five();
    let ids = |filter: Vec<InstanceStatus>| contract.get_instance_ids(1000, &filter);
    assert_eq!(ids(vec![]), Vec::<u32>::new());
    assert_eq!(ids(vec![InstanceStatus::Claimed]), vec![1]);
    assert_eq!(ids(vec![InstanceStatus::Running, InstanceStatus::Ended]), vec![3, 4]);
    assert_eq!(ids(vec![InstanceStatus::Ended, InstanceStatus::Running]), vec![3, 4]);
    assert_eq!(ids(vec![InstanceStatus::Ended, InstanceStatus::Ended]), vec![3]);
    assert_eq!(ids(vec![InstanceStatus::NotExisting]), Vec::<u32>::new());
    assert_eq!(
        ids(vec![
            InstanceStatus::NotExisting,
            InstanceStatus::Running,
            InstanceStatus::Ended,
            InstanceStatus::Triggered,
            InstanceStatus::Claimed,
            InstanceStatus::Disabled,
        ]),
        vec![1, 2, 3, 4, 5]
    );
    assert_eq!(ids(vec![InstanceStatus::Running; 7]), Vec::<u32>::new());
    assert_eq!(ids(vec![InstanceStatus::Running; 6]), vec![4]);
    assert!(status_in(&vec![InstanceStatus::Ended, InstanceStatus::Claimed], InstanceStatus::Claimed));
    assert!(!status_in(&vec![InstanceStatus::Ended], InstanceStatus::Claimed));
    assert!(!status_in(&vec![], InstanceStatus::Claimed));
}

#[test]
fn instances_are_counted_by_status() {
    let contract = view_five();
    let count = |filter: Vec<InstanceStatus>| contract.get_nb_instances(1000, &filter);
    assert_eq!(count(vec![]), 5);
    assert_eq!(count(vec![InstanceStatus::Disabled]), 1);
    assert_eq!(count(vec![InstanceStatus::Triggered, InstanceStatus::Claimed]), 2);
    assert_eq!(count(vec![InstanceStatus::NotExisting]), 0);
    assert_eq!(count(vec![InstanceStatus::Running; 6]), 1);
    assert_eq!(count(vec![InstanceStatus::Running; 7]), 0);
    assert!(contract.is_instance_with_status(1000, InstanceStatus::Ended));
    assert!(contract.is_instance_with_status(1000, InstanceStatus::Disabled));
    assert!(!contract.is_instance_with_status(1000, InstanceStatus::NotExisting));
    assert!(!contract.is_instance_with_status(150, InstanceStatus::Ended));
}

#[test]
fn the_remaining_time_stops_at_zero() {
    let contract = view_five();
    assert_eq!(contract.get_remaining_time(100, 1), Ok(100));
    assert_eq!(contract.get_remaining_time(199, 1), Ok(1));
    assert_eq!(contract.get_remaining_time(200, 1), Ok(0));
    assert_eq!(contract.get_remaining_time(201, 1), Ok(0));
    assert_eq!(contract.get_remaining_time(0, 4), Ok(5_100));
    assert_eq!(contract.get_remaining_time(0, 6), Err(Error::NoSuchInstance));
}

#[test]
fn instances_are_listed_by_sponsor_and_by_player() {
    let contract = view_five();
    assert_eq!(contract.get_sponsor_instances(view_ann()), vec![1, 3, 4]);
    assert_eq!(contract.get_sponsor_instances(view_ben()), vec![2, 5]);
    assert_eq!(contract.get_sponsor_instances(view_cat()), Vec::<u32>::new());
    assert_eq!(contract.get_nb_sponsor_running(150, view_ann()), 2);
    assert_eq!(contract.get_nb_sponsor_running(1000, view_ann()), 1);
    assert_eq!(contract.get_nb_sponsor_running(1000, view_ben()), 0);
    assert_eq!(contract.get_nb_sponsor_running(9_000, view_ann()), 0);
    assert_eq!(contract.get_player_instances(view_cat()), vec![1, 2, 4]);
    assert_eq!(contract.get_player_instances(view_ben()), vec![2]);
    assert_eq!(contract.get_player_instances(view_ann()), Vec::<u32>::new());
    assert_eq!(contract.has_won(1, view_cat()), Ok(true));
    assert_eq!(contract.has_won(2, view_cat()), Ok(false));
    assert_eq!(contract.has_won(2, view_ben()), Ok(true));
    assert_eq!(contract.has_won(3, Address::zero()), Ok(true));
    assert_eq!(contract.has_won(6, view_cat()), Err(Error::NoSuchInstance));
}

fn view_expected_two(reader_played: bool, reader_won: bool) -> GetInfoStruct {
    GetInfoStruct {
        iid: 2,
        instance_status: InstanceStatus::Triggered,
        number_of_players: 2,
        has_played: reader_played,
        has_won: reader_won,
        winner_info: WinnerInfo { ticket_number: 2, address: view_ben() },
        sponsor_info: SponsorInfo {
            address: view_ben(),
            pseudo: b"p".to_vec(),
            url1: b"u1".to_vec(),
            url2: Vec::new(),
            url3: Vec::new(),
            reserved: Vec::new(),
            graphic: Vec::new(),
            logo_link: b"logo".to_vec(),
            free_text: b"text".to_vec(),
        },
        prize_info: PrizeInfo { token_identifier: b"EGLD".to_vec(), token_nonce: 0, token_amount: 10 },
        premium: false,
        charity: false,
        deadline: 200,
    }
}

#[test]
fn the_info_of_an_instance_depends_on_the_reader() {
    let contract = view_five();
    assert_eq!(contract.get_instance_info(1000, 2, view_ben()), Ok(view_expected_two(true, true)));
    assert_eq!(contract.get_instance_info(1000, 2, view_cat()), Ok(view_expected_two(true, false)));
    assert_eq!(contract.get_instance_info(1000, 2, view_ann()), Ok(view_expected_two(false, false)));
    assert_eq!(
        contract.get_instance_info(1000, 2, Address::zero()),
        Ok(view_expected_two(false, false))
    );
    let ended = contract.get_instance_info(1000, 3, Address::zero()).unwrap();
    assert!(!ended.has_won);
    assert_eq!(ended.winner_info, WinnerInfo { ticket_number: 0, address: Address::zero() });
    assert_eq!(ended.instance_status, InstanceStatus::Ended);
    assert_eq!(
        contract.get_instance_info(1000, 9, view_ben()),
        Err(Error::NoSuchInstance)
    );
    assert_eq!(
        GetInfoStruct::of(&contract.instances[1], 1000, view_cat()),
        view_expected_two(true, false)
    );
}

#[test]
fn all_infos_follow_the_filter() {
    let contract = view_five();
    let (count, infos) = contract.get_all_instance_info(
        1000,
        view_cat(),
        &vec![InstanceStatus::Triggered, InstanceStatus::Running],
    );
    assert_eq!(count, 2);
    assert_eq!(infos.len(), 2);
    assert_eq!(infos[0], view_expected_two(true, false));
    assert_eq!(infos[1].iid, 4);
    assert_eq!(infos[1].instance_status, InstanceStatus::Running);
    assert!(infos[1].has_played);
    assert_eq!(infos[1].deadline, 5_100);
    let (none, empty) = contract.get_all_instance_info(1000, view_cat(), &vec![]);
    assert_eq!(none, 0);
    assert!(empty.is_empty());
    let (too_many, still_empty) =
        contract.get_all_instance_info(1000, view_cat(), &vec![InstanceStatus::Running; 7]);
    assert_eq!(too_many, 0);
    assert!(still_empty.is_empty());
}

#[test]
fn infos_come_in_fragments() {
    let contract = view_five();
    let all = vec![
        InstanceStatus::Running,
        InstanceStatus::Ended,
        InstanceStatus::Triggered,
        InstanceStatus::Claimed,
        InstanceStatus::Disabled,
    ];
    let frag = |start: u32, max: u32| {
        let (last, infos) =
            contract.get_all_instance_info_frag(1000, view_cat(), start, max, &all);
        (last, infos.iter().map(|info| info.iid).collect::<Vec<u32>>())
    };
    assert_eq!(frag(0, 2), (false, vec![1, 2]));
    assert_eq!(frag(3, 2), (false, vec![3, 4]));
    assert_eq!(frag(5, 2), (true, vec![5]));
    assert_eq!(frag(1, 5), (true, vec![1, 2, 3, 4, 5]));
    assert_eq!(frag(1, 4), (false, vec![1, 2, 3, 4]));
    assert_eq!(frag(6, 2), (false, vec![]));
    assert_eq!(frag(1, 0), (false, vec![]));
    let (last, infos) =
        contract.get_all_instance_info_frag(1000, view_cat(), 2, 1, &vec![InstanceStatus::Ended]);
    assert!(last);
    assert_eq!(infos.len(), 1);
    assert_eq!(infos[0].iid, 3);
    let (unusable, nothing) = contract.get_all_instance_info_frag(1000, view_cat(), 0, 9, &vec![]);
    assert!(!unusable);
    assert!(nothing.is_empty());
}

#[test]
fn the_four_part_info_tells_the_same() {
    let contract = view_five();
    let (status, players, winner, info) = contract.get_instance_info_legacy(1000, 2).unwrap();
    assert_eq!(status, InstanceStatus::Triggered);
    assert_eq!(players, 2);
    assert_eq!(winner, view_ben());
    assert_eq!(info, contract.instances[1].info);
    assert!(contract.get_instance_info_legacy(1000, 8).is_err());
    assert_eq!(
        contract.get_instance_info_legacy(1000, 8).unwrap_err(),
        Error::NoSuchInstance
    );
    let (count, rows) = contract
        .get_all_instance_info_legacy(1000, &vec![InstanceStatus::Claimed, InstanceStatus::Disabled]);
    assert_eq!(count, 2);
    assert_eq!(rows.len(), 2);
    assert_eq!(rows[0].0, 1);
    assert_eq!(rows[0].1, InstanceStatus::Claimed);
    assert_eq!(rows[0].2, 1);
    assert_eq!(rows[0].3, view_cat());
    assert_eq!(rows[0].4, contract.instances[0].info);
    assert_eq!(rows[1].0, 5);
    assert_eq!(rows[1].1, InstanceStatus::Disabled);
    assert_eq!(rows[1].3, Address::zero());
    let (none, empty) = contract.get_all_instance_info_legacy(1000, &vec![]);
    assert_eq!(none, 0);
    assert!(empty.is_empty());
}

#[test]
fn the_fee_policy_is_read_back_as_it_was_set() {
    let mut contract = view_five();
    assert_eq!(contract.set_fee_policy(&view_call(view_owner(), 1), 44, 55, 45), Ok(()));
    assert_eq!(contract.get_fee_policy(), Ok((44, 55, 45)));
}

#[test]
fn the_state_in_short_keeps_pool_flags_and_winner() {
    let contract = view_five();
    let state = contract.instances[1].state;
    assert_eq!(
        state.data(),
        InstanceData {
            sponsor_rewards_pool: 0,
            claimed_status: false,
            winner_address: view_ben(),
            disabled: false,
        }
    );
    let other = InstanceState {
        claimed_status: true,
        reward_info: RewardInfo { percent: 7, pool: 99 },
        winner_info: WinnerInfo { ticket_number: 3, address: view_cat() },
        disabled: true,
    };
    assert_eq!(
        other.data(),
        InstanceData {
            sponsor_rewards_pool: 99,
            claimed_status: true,
            winner_address: view_cat(),
            disabled: true,
        }
    );
}
