use prize::action::{Action, Event, Memo};
use prize::address::Address;
use prize::charity::CharityModule;
use prize::context::CallContext;
use prize::error::Error;
use prize::event::EventModule;
use prize::fee::FeeModule;
use prize::instance::{InstanceModule, InstanceStatus};
use prize::parameter::ParameterModule;
use prize::player::PlayerModule;
use prize::prize::Prize;
use prize::security::SecurityModule;
use prize::state::PrizeContract;

fn admin_owner() -> Address {
    Address::new(9, 1)
}

fn admin_sponsor() -> Address {
    Address::new(9, 2)
}

fn admin_alice() -> Address {
    Address::new(9, 3)
}

fn admin_bob() -> Address {
    Address::new(9, 4)
}

fn admin_call(caller: Address, now: u64) -> CallContext {
    CallContext::new(caller, admin_owner(), now, 3).unwrap()
}

fn admin_deployed() -> PrizeContract {
    let mut contract = PrizeContract::new();
    assert_eq!(contract.init(), Ok(()));
    contract
}

fn admin_create(contract: &mut PrizeContract, now: u64, duration: u64) -> Result<u32, Error> {
    contract.create_instance(
        &admin_call(admin_sponsor(), now),
        b"TOK-123456".to_vec(),
        4,
        50,
        duration,
        b"sam".to_vec(),
        b"a".to_vec(),
        b"b".to_vec(),
        b"c".to_vec(),
        b"d".to_vec(),
        b"e".to_vec(),
        b"f".to_vec(),
        b"g".to_vec(),
        false,
        false,
    )
}

#[test]
fn init_gives_every_setting_its_default() {
    let fresh = PrizeContract::new();
    assert_eq!(fresh.get_param_nb_max_instances_per_sponsor(), 0);
    assert_eq!(fresh.get_param_duration(), (0, 0));
    assert_eq!(fresh.get_param_sponsor_info_max_length(), 0);
    let contract = admin_deployed();
    assert!(!contract.get_param_manual_claim());
    assert_eq!(contract.get_param_nb_max_instances_per_sponsor(), 20);
    assert_eq!(contract.get_param_duration(), (60, 31_536_000));
    assert_eq!(contract.get_param_sponsor_info_max_length(), 1000);
    assert_eq!(contract.get_fee_policy(), Ok((0, 0, 0)));
    assert_eq!(contract.get_fee_pool(), 0);
    assert_eq!(contract.get_charity_pool(), 0);
    assert!(!contract.get_log_enable_status());
    assert_eq!(contract.iid_counter, 0);
    assert_eq!(contract.get_nb_instances(0, &Vec::new()), 0);
}

#[test]
fn init_keeps_what_is_set_and_fills_what_is_zero() {
    let mut contract = admin_deployed();
    let admin = admin_call(admin_owner(), 1);
    assert_eq!(contract.set_param_duration(&admin, 0, 30), Ok(()));
    assert_eq!(contract.set_param_nb_max_instances_per_sponsor(&admin, 5), Ok(()));
    assert_eq!(contract.set_param_sponsor_info_max_length(&admin, 0), Ok(()));
    assert_eq!(contract.set_param_manual_claim(&admin, true), Ok(()));
    assert_eq!(contract.set_fee_policy(&admin, 7, 8, 9), Ok(()));
    assert_eq!(contract.set_log_enable_status(&admin, true), Ok(()));
    contract.take_journal();
    assert_eq!(contract.init(), Ok(()));
    assert_eq!(contract.get_param_duration(), (60, 30));
    assert_eq!(contract.get_param_nb_max_instances_per_sponsor(), 5);
    assert_eq!(contract.get_param_sponsor_info_max_length(), 1000);
    assert!(contract.get_param_manual_claim());
    assert_eq!(contract.get_fee_policy(), Ok((7, 8, 9)));
    assert!(contract.get_log_enable_status());
    assert!(contract.take_journal().is_empty());
}

#[test]
fn init_fees_if_empty_stores_a_policy_only_once() {
    let mut contract = PrizeContract::new();
    contract.init_fees_if_empty(5, 60, 40);
    assert_eq!(contract.get_fee_policy(), Ok((5, 60, 40)));
    contract.init_fees_if_empty(6, 1, 1);
    assert_eq!(contract.get_fee_policy(), Ok((5, 60, 40)));
    let before = contract.clone();
    contract.init_donations_if_empty();
    assert_eq!(contract, before);
}

#[test]
fn settings_are_reserved_to_the_owner() {
    let mut contract = admin_deployed();
    let stranger = admin_call(admin_alice(), 1);
    let before = contract.clone();
    assert_eq!(contract.set_log_enable_status(&stranger, true), Err(Error::OnlyOwner));
    assert_eq!(contract.set_param_manual_claim(&stranger, true), Err(Error::OnlyOwner));
    assert_eq!(
        contract.set_param_nb_max_instances_per_sponsor(&stranger, 1),
        Err(Error::OnlyOwner)
    );
    assert_eq!(contract.set_param_duration(&stranger, 1, 2), Err(Error::OnlyOwner));
    assert_eq!(contract.set_param_sponsor_info_max_length(&stranger, 1), Err(Error::OnlyOwner));
    assert_eq!(contract.set_fee_policy(&stranger, 1, 1, 1), Err(Error::OnlyOwner));
    assert_eq!(contract.claim_fees(&stranger), Err(Error::OnlyOwner));
    assert_eq!(contract.claim_donations(&stranger), Err(Error::OnlyOwner));
    assert_eq!(contract.set_premium(&stranger, 1, true), Err(Error::OnlyOwner));
    assert_eq!(contract.disable_instance(&stranger, 1, true), Err(Error::OnlyOwner));
    assert_eq!(contract.add_addr_blacklist(&stranger, admin_bob()), Err(Error::OnlyOwner));
    assert_eq!(contract.rm_addr_blacklist(&stranger, admin_bob()), Err(Error::OnlyOwner));
    assert_eq!(contract.clean_claimed_instances(&stranger, &Vec::new()), Err(Error::OnlyOwner));
    assert_eq!(contract.distributed_prizes(&stranger, &Vec::new()), Err(Error::OnlyOwner));
    assert_eq!(contract, before);
}

#[test]
fn settings_are_logged() {
    let mut contract = admin_deployed();
    let admin = admin_call(admin_owner(), 1);
    assert_eq!(contract.set_log_enable_status(&admin, true), Ok(()));
    assert_eq!(contract.set_param_manual_claim(&admin, true), Ok(()));
    assert_eq!(contract.set_param_nb_max_instances_per_sponsor(&admin, 3), Ok(()));
    assert_eq!(contract.set_param_duration(&admin, 10, 10), Ok(()));
    assert_eq!(contract.set_param_duration(&admin, 11, 10), Err(Error::DurationOrder));
    assert_eq!(contract.set_param_sponsor_info_max_length(&admin, 77), Ok(()));
    assert_eq!(contract.set_fee_policy(&admin, 12, 100, 0), Ok(()));
    assert_eq!(contract.set_fee_policy(&admin, 12, 100, 1), Err(Error::WrongRewards));
    assert_eq!(contract.set_fee_policy(&admin, 12, 200, 100), Err(Error::WrongRewards));
    assert_eq!(contract.set_fee_policy(&admin, 12, 0, 101), Err(Error::WrongRewards));
    assert_eq!(contract.get_param_duration(), (10, 10));
    assert_eq!(contract.get_fee_policy(), Ok((12, 100, 0)));
    assert_eq!(
        contract.take_journal(),
        vec![
            Action::Log(Event::SetParamManualClaim { epoch: 3, manual_claim: true }),
            Action::Log(Event::SetParamNbMaxInstancesPerSponsor { epoch: 3, nb_instances_max: 3 }),
            Action::Log(Event::SetParamDuration { epoch: 3, duration_min: 10, duration_max: 10 }),
            Action::Log(Event::SetParamSponsorInfoMaxLength { epoch: 3, length_max: 77 }),
            Action::Log(Event::SetFeePolicy {
                epoch: 3,
                fee_amount_egld: 12,
                sponsor_reward_percent: 100,
                link_reward_percent: 0,
            }),
        ]
    );
    assert_eq!(contract.set_log_enable_status(&admin, false), Ok(()));
    assert_eq!(contract.set_param_manual_claim(&admin, false), Ok(()));
    assert!(contract.take_journal().is_empty());
}

#[test]
fn each_event_wrapper_writes_its_entry() {
    let mut contract = admin_deployed();
    contract.event_wrapper_play(1, &admin_alice(), 2, 3, 4);
    assert!(contract.take_journal().is_empty());
    assert_eq!(contract.set_log_enable_status(&admin_call(admin_owner(), 1), true), Ok(()));
    contract.event_wrapper_create_instance(1, &admin_sponsor(), 2, &vec![7], 3, 4, 5, &vec![8]);
    contract.event_wrapper_play(1, &admin_alice(), 2, 3, 4);
    contract.event_wrapper_trigger(1, 2, 3, &admin_alice());
    contract.event_wrapper_fee_pool_info(1, 2);
    contract.event_wrapper_reward_pool_info(1, 2, 3);
    contract.event_wrapper_send_rewards(1, 2, 3);
    contract.event_wrapper_auto_claim_prize(1, 2);
    contract.event_wrapper_claim_fees(1, 2);
    contract.event_wrapper_claim_link_rewards(1, 2, &admin_bob());
    contract.event_wrapper_claim_donations(1, 2);
    contract.event_wrapper_manual_claim_prize(1, 2);
    contract.event_wrapper_clean_claim(1, 2);
    contract.event_wrapper_set_premium(1, 2, true);
    contract.event_wrapper_disable_instance(1, 2, true);
    contract.event_wrapper_set_fee_policy(1, 2, 3, 4);
    contract.event_wrapper_set_param_duration(1, 2, 3);
    contract.event_wrapper_set_param_sponsor_info_max_length(1, 2);
    contract.event_wrapper_set_param_nb_max_instances_per_sponsor(1, 2);
    contract.event_wrapper_set_param_manual_claim(1, true);
    contract.event_wrapper_add_addr_blacklist(1, &admin_bob());
    contract.event_wrapper_rm_addr_blacklist(1, &admin_bob());
    let expected = vec![
        Event::CreateInstance {
            epoch: 1,
            sponsor_address: admin_sponsor(),
            iid: 2,
            token_identifier: vec![7],
            token_nonce: 3,
            token_amount: 4,
            duration_in_s: 5,
            pseudo: vec![8],
        },
        Event::Play { epoch: 1, player_address: admin_alice(), iid: 2, ticket_number: 3, fees: 4 },
        Event::Trigger { epoch: 1, iid: 2, ticket_number: 3, winner_address: admin_alice() },
        Event::FeePoolInfo { epoch: 1, fees: 2 },
        Event::RewardPoolInfo { epoch: 1, iid: 2, reward_pool: 3 },
        Event::SendRewards { epoch: 1, iid: 2, rewards: 3 },
        Event::AutoClaimPrize { epoch: 1, iid: 2 },
        Event::ClaimFees { epoch: 1, fee_amount: 2 },
        Event::ClaimLinkRewards { epoch: 1, reward_amount: 2, link_address: admin_bob() },
        Event::ClaimDonations { epoch: 1, donations_amount: 2 },
        Event::ManualClaimPrize { epoch: 1, iid: 2 },
        Event::CleanClaim { epoch: 1, iid: 2 },
        Event::SetPremium { epoch: 1, iid: 2, premium_status: true },
        Event::DisableInstance { epoch: 1, iid: 2, disable_status: true },
        Event::SetFeePolicy {
            epoch: 1,
            fee_amount_egld: 2,
            sponsor_reward_percent: 3,
            link_reward_percent: 4,
        },
        Event::SetParamDuration { epoch: 1, duration_min: 2, duration_max: 3 },
        Event::SetParamSponsorInfoMaxLength { epoch: 1, length_max: 2 },
        Event::SetParamNbMaxInstancesPerSponsor { epoch: 1, nb_instances_max: 2 },
        Event::SetParamManualClaim { epoch: 1, manual_claim: true },
        Event::AddAddrBlacklist { epoch: 1, address: admin_bob() },
        Event::RmAddrBlacklist { epoch: 1, address: admin_bob() },
    ];
    let logged: Vec<Action> = expected.into_iter().map(Action::Log).collect();
    assert_eq!(contract.take_journal(), logged);
}

#[test]
fn the_blacklist_keeps_its_order() {
    let mut contract = admin_deployed();
    let admin = admin_call(admin_owner(), 1);
    assert_eq!(contract.set_log_enable_status(&admin, true), Ok(()));
    assert_eq!(contract.add_addr_blacklist(&admin, admin_alice()), Ok(()));
    assert_eq!(contract.add_addr_blacklist(&admin, admin_bob()), Ok(()));
    assert_eq!(contract.add_addr_blacklist(&admin, admin_sponsor()), Ok(()));
    assert_eq!(contract.add_addr_blacklist(&admin, admin_bob()), Err(Error::AlreadyBlacklisted));
    assert_eq!(
        contract.get_address_blacklist(),
        vec![admin_alice(), admin_bob(), admin_sponsor()]
    );
    assert!(contract.is_blacklisted(admin_bob()));
    assert_eq!(contract.rm_addr_blacklist(&admin, admin_bob()), Ok(()));
    assert!(!contract.is_blacklisted(admin_bob()));
    assert_eq!(contract.rm_addr_blacklist(&admin, admin_bob()), Err(Error::NotBlacklisted));
    assert_eq!(contract.get_address_blacklist(), vec![admin_alice(), admin_sponsor()]);
    assert_eq!(contract.add_addr_blacklist(&admin, admin_bob()), Ok(()));
    assert_eq!(
        contract.get_address_blacklist(),
        vec![admin_alice(), admin_sponsor(), admin_bob()]
    );
    assert_eq!(
        contract.take_journal(),
        vec![
            Action::Log(Event::AddAddrBlacklist { epoch: 3, address: admin_alice() }),
            Action::Log(Event::AddAddrBlacklist { epoch: 3, address: admin_bob() }),
            Action::Log(Event::AddAddrBlacklist { epoch: 3, address: admin_sponsor() }),
            Action::Log(Event::RmAddrBlacklist { epoch: 3, address: admin_bob() }),
            Action::Log(Event::AddAddrBlacklist { epoch: 3, address: admin_bob() }),
        ]
    );
}

#[test]
fn a_disabled_instance_is_disabled_whatever_else_holds() {
    let mut contract = admin_deployed();
    let admin = admin_call(admin_owner(), 1);
    assert_eq!(contract.set_log_enable_status(&admin, true), Ok(()));
    assert_eq!(admin_create(&mut contract, 100, 60), Ok(1));
    assert_eq!(contract.disable_instance(&admin, 2, true), Err(Error::NoSuchInstance));
    assert_eq!(contract.disable_instance(&admin, 1, false), Err(Error::AlreadyInDisableState));
    contract.take_journal();
    assert_eq!(contract.disable_instance(&admin, 1, true), Ok(()));
    assert_eq!(
        contract.take_journal(),
        vec![Action::Log(Event::DisableInstance { epoch: 3, iid: 1, disable_status: true })]
    );
    assert_eq!(contract.disable_instance(&admin, 1, true), Err(Error::AlreadyInDisableState));
    assert_eq!(contract.get_instance_status(100, 1), InstanceStatus::Disabled);
    assert_eq!(contract.get_instance_status(500, 1), InstanceStatus::Disabled);
    assert_eq!(contract.play(&admin_call(admin_alice(), 120), 0, 1, None), Err(Error::NotActive));
    assert_eq!(
        contract.trigger(&admin_call(admin_sponsor(), 500), 1, 0),
        Err(Error::UnexpectedState)
    );
    assert_eq!(contract.disable_instance(&admin, 1, false), Ok(()));
    assert_eq!(contract.get_instance_status(100, 1), InstanceStatus::Running);
    assert_eq!(contract.trigger(&admin_call(admin_sponsor(), 500), 1, 0), Ok(()));
    assert_eq!(contract.get_instance_status(500, 1), InstanceStatus::Claimed);
}

#[test]
fn a_drawn_instance_is_neither_disabled_nor_made_premium() {
    let mut contract = admin_deployed();
    let admin = admin_call(admin_owner(), 1);
    assert_eq!(contract.set_param_manual_claim(&admin, true), Ok(()));
    assert_eq!(contract.set_log_enable_status(&admin, true), Ok(()));
    assert_eq!(admin_create(&mut contract, 100, 60), Ok(1));
    assert_eq!(admin_create(&mut contract, 100, 60), Ok(2));
    assert_eq!(contract.play(&admin_call(admin_alice(), 110), 0, 1, None), Ok(1));
    assert_eq!(contract.trigger(&admin_call(admin_sponsor(), 200), 1, 1), Ok(()));
    contract.take_journal();
    let drawn = contract.clone();
    assert_eq!(contract.get_instance_status(200, 1), InstanceStatus::Triggered);
    assert_eq!(contract.disable_instance(&admin, 1, true), Err(Error::AlreadyDrawn));
    assert_eq!(contract.disable_instance(&admin, 1, false), Err(Error::AlreadyDrawn));
    assert_eq!(contract.set_premium(&admin, 1, true), Err(Error::AlreadyDrawn));
    assert_eq!(contract.set_premium(&admin, 1, false), Err(Error::AlreadyDrawn));
    assert_eq!(contract, drawn);
    assert_eq!(contract.claim_prize(&admin_call(admin_alice(), 210), 1), Ok(()));
    let claimed = contract.instances[0].clone();
    assert_eq!(contract.disable_instance(&admin, 1, true), Err(Error::AlreadyDrawn));
    assert_eq!(contract.set_premium(&admin, 1, true), Err(Error::AlreadyDrawn));
    assert_eq!(contract.instances[0], claimed);
    assert_eq!(contract.get_instance_status(210, 1), InstanceStatus::Claimed);
    assert_eq!(contract.disable_instance(&admin, 2, true), Ok(()));
    assert_eq!(contract.set_premium(&admin, 2, true), Ok(()));
    assert_eq!(contract.get_instance_status(210, 2), InstanceStatus::Disabled);
    assert!(contract.is_valid());
}

#[test]
fn the_premium_flag_is_the_owners_to_set() {
    let mut contract = admin_deployed();
    let admin = admin_call(admin_owner(), 1);
    assert_eq!(contract.set_log_enable_status(&admin, true), Ok(()));
    assert_eq!(admin_create(&mut contract, 100, 60), Ok(1));
    assert!(!contract.instances[0].info.premium);
    assert_eq!(contract.set_premium(&admin, 3, true), Err(Error::NoSuchInstance));
    contract.take_journal();
    assert_eq!(contract.set_premium(&admin, 1, true), Ok(()));
    assert!(contract.instances[0].info.premium);
    assert_eq!(
        contract.take_journal(),
        vec![Action::Log(Event::SetPremium { epoch: 3, iid: 1, premium_status: true })]
    );
    assert_eq!(contract.set_premium(&admin, 1, false), Ok(()));
    assert!(!contract.instances[0].info.premium);
}

fn admin_three_rounds() -> PrizeContract {
    let mut contract = admin_deployed();
    assert_eq!(contract.set_fee_policy(&admin_call(admin_owner(), 1), 10, 50, 0), Ok(()));
    assert_eq!(admin_create(&mut contract, 100, 60), Ok(1));
    assert_eq!(admin_create(&mut contract, 100, 600), Ok(2));
    assert_eq!(admin_create(&mut contract, 100, 60), Ok(3));
    assert_eq!(contract.play(&admin_call(admin_alice(), 110), 10, 1, None), Ok(1));
    assert_eq!(contract.play(&admin_call(admin_bob(), 110), 10, 1, None), Ok(2));
    assert_eq!(contract.play(&admin_call(admin_bob(), 110), 10, 2, None), Ok(1));
    contract
}

#[test]
fn distributed_prizes_draws_every_instance_that_is_due() {
    let mut contract = admin_three_rounds();
    let admin = admin_call(admin_owner(), 200);
    assert_eq!(contract.set_log_enable_status(&admin, true), Ok(()));
    contract.take_journal();
    let before = contract.clone();
    assert_eq!(contract.distributed_prizes(&admin, &vec![2]), Err(Error::IndexOutOfRange));
    assert_eq!(contract.distributed_prizes(&admin, &vec![2, 0, 0]), Err(Error::IndexOutOfRange));
    assert_eq!(contract.distributed_prizes(&admin, &vec![3, 0]), Err(Error::IndexOutOfRange));
    assert_eq!(contract.distributed_prizes(&admin, &vec![0, 0]), Err(Error::IndexOutOfRange));
    assert_eq!(contract, before);
    assert!(contract.tickets_fit(200, &vec![2, 9]));
    assert!(contract.donations_fit(200));
    assert_eq!(contract.distributed_prizes(&admin, &vec![2, 9]), Ok(()));
    assert_eq!(contract.get_instance_status(200, 1), InstanceStatus::Claimed);
    assert_eq!(contract.get_instance_status(200, 2), InstanceStatus::Running);
    assert_eq!(contract.get_instance_status(200, 3), InstanceStatus::Claimed);
    assert_eq!(contract.has_won(1, admin_bob()), Ok(true));
    assert_eq!(contract.has_won(3, admin_sponsor()), Ok(true));
    assert_eq!(contract.nb_instances_running.get_or(admin_sponsor(), 0), 1);
    let prize_to = |winner: Address| Action::Direct {
        to: winner,
        token_identifier: b"TOK-123456".to_vec(),
        token_nonce: 4,
        amount: 50,
        memo: Memo::SendPrize,
    };
    assert_eq!(
        contract.take_journal(),
        vec![
            Action::DirectEgld { to: admin_sponsor(), amount: 10, memo: Memo::SponsorRewards },
            Action::Log(Event::SendRewards { epoch: 3, iid: 1, rewards: 10 }),
            prize_to(admin_bob()),
            Action::Log(Event::AutoClaimPrize { epoch: 3, iid: 1 }),
            Action::Log(Event::Trigger {
                epoch: 3,
                iid: 1,
                ticket_number: 2,
                winner_address: admin_bob(),
            }),
            prize_to(admin_sponsor()),
            Action::Log(Event::AutoClaimPrize { epoch: 3, iid: 3 }),
            Action::Log(Event::Trigger {
                epoch: 3,
                iid: 3,
                ticket_number: 0,
                winner_address: admin_sponsor(),
            }),
        ]
    );
    assert_eq!(contract.distributed_prizes(&admin, &Vec::new()), Ok(()));
    assert!(contract.take_journal().is_empty());
}

#[test]
fn cleaning_removes_claimed_instances_only() {
    let mut contract = admin_three_rounds();
    let admin = admin_call(admin_owner(), 200);
    assert_eq!(contract.distributed_prizes(&admin, &vec![1, 0]), Ok(()));
    assert_eq!(contract.set_log_enable_status(&admin, true), Ok(()));
    contract.take_journal();

    let mut named = contract.clone();
    assert_eq!(named.clean_claimed_instances(&admin, &vec![3, 2, 7, 3]), Ok(()));
    assert_eq!(named.get_instance_ids(200, &vec![InstanceStatus::Claimed]), vec![1]);
    assert_eq!(named.get_nb_instances(200, &Vec::new()), 2);
    assert_eq!(named.get_instance_status(200, 3), InstanceStatus::NotExisting);
    assert_eq!(named.get_instance_status(200, 2), InstanceStatus::Running);
    assert_eq!(
        named.take_journal(),
        vec![Action::Log(Event::CleanClaim { epoch: 3, iid: 3 })]
    );

    assert_eq!(contract.clean_claimed_instances(&admin, &Vec::new()), Ok(()));
    assert_eq!(contract.get_nb_instances(200, &Vec::new()), 1);
    assert_eq!(contract.get_instance_status(200, 1), InstanceStatus::NotExisting);
    assert_eq!(contract.get_nb_players(1), 0);
    assert!(!contract.has_played(1, admin_alice()));
    assert_eq!(contract.get_nb_players(2), 1);
    assert_eq!(
        contract.take_journal(),
        vec![
            Action::Log(Event::CleanClaim { epoch: 3, iid: 1 }),
            Action::Log(Event::CleanClaim { epoch: 3, iid: 3 }),
        ]
    );
    assert_eq!(contract.clean_claimed_instances(&admin, &Vec::new()), Ok(()));
    assert!(contract.take_journal().is_empty());
    assert_eq!(admin_create(&mut contract, 300, 60), Ok(4));
}

#[test]
fn a_disabled_claimed_instance_is_not_cleaned() {
    let mut contract = admin_three_rounds();
    let admin = admin_call(admin_owner(), 200);
    assert_eq!(contract.distributed_prizes(&admin, &vec![1, 0]), Ok(()));
    assert_eq!(contract.disable_instance(&admin, 1, true), Err(Error::AlreadyDrawn));
    contract.instances[0].state.disabled = true;
    assert!(contract.is_valid());
    assert_eq!(contract.clean_claimed_instances(&admin, &vec![1, 3]), Ok(()));
    assert_eq!(contract.get_instance_status(200, 1), InstanceStatus::Disabled);
    assert_eq!(contract.get_instance_status(200, 3), InstanceStatus::NotExisting);
}

#[test]
fn players_are_recorded_under_any_number() {
    let mut contract = admin_deployed();
    assert_eq!(admin_create(&mut contract, 100, 60), Ok(1));
    assert_eq!(contract.add_player(1, &admin_alice()), 1);
    assert_eq!(contract.add_player(1, &admin_bob()), 2);
    assert_eq!(contract.add_player(1, &admin_alice()), 3);
    assert_eq!(contract.get_nb_players(1), 3);
    assert!(contract.has_played(1, admin_alice()));
    assert_eq!(contract.get_ticket_owner(1, 0), Err(Error::IndexOutOfRange));
    assert_eq!(contract.get_ticket_owner(1, 1), Ok(admin_alice()));
    assert_eq!(contract.get_ticket_owner(1, 2), Ok(admin_bob()));
    assert_eq!(contract.get_ticket_owner(1, 3), Ok(admin_alice()));
    assert_eq!(contract.get_ticket_owner(1, 4), Err(Error::IndexOutOfRange));
    assert!(contract.is_valid());

    assert_eq!(contract.get_nb_players(7), 0);
    assert!(!contract.has_played(7, admin_bob()));
    assert_eq!(contract.get_ticket_owner(7, 1), Err(Error::IndexOutOfRange));
    assert_eq!(contract.add_player(7, &admin_bob()), 1);
    assert_eq!(contract.add_player(2, &admin_alice()), 1);
    assert_eq!(contract.add_player(7, &admin_alice()), 2);
    assert_eq!(contract.get_nb_players(7), 2);
    assert_eq!(contract.get_nb_players(2), 1);
    assert_eq!(contract.get_nb_players(1), 3);
    assert!(contract.has_played(7, admin_bob()));
    assert!(!contract.has_played(2, admin_bob()));
    assert_eq!(contract.get_ticket_owner(7, 1), Ok(admin_bob()));
    assert_eq!(contract.get_ticket_owner(7, 2), Ok(admin_alice()));
    assert_eq!(contract.get_ticket_owner(7, 3), Err(Error::IndexOutOfRange));
    assert_eq!(contract.get_instance_status(100, 7), InstanceStatus::NotExisting);
    assert_eq!(contract.get_player_instances(admin_bob()), vec![1]);
    assert!(contract.is_valid());

    contract.clear_players(7);
    assert_eq!(contract.get_nb_players(7), 0);
    assert_eq!(contract.get_nb_players(2), 1);
    contract.clear_players(9);
    contract.clear_players(1);
    assert_eq!(contract.get_nb_players(1), 0);
    assert!(!contract.has_played(1, admin_alice()));
    assert_eq!(contract.add_player(1, &admin_bob()), 1);
    assert!(contract.is_valid());
}

#[test]
fn a_new_instance_starts_with_the_players_recorded_under_its_number() {
    let mut contract = admin_deployed();
    assert_eq!(contract.add_player(1, &admin_alice()), 1);
    assert_eq!(contract.add_player(3, &admin_bob()), 1);
    assert_eq!(admin_create(&mut contract, 100, 60), Ok(1));
    assert_eq!(contract.instances[0].players, vec![admin_alice()]);
    assert_eq!(contract.get_nb_players(1), 1);
    assert_eq!(contract.get_nb_players(3), 1);
    assert_eq!(
        contract.play(&admin_call(admin_alice(), 110), 0, 1, None),
        Err(Error::AlreadyPlayed)
    );
    assert_eq!(contract.play(&admin_call(admin_bob(), 110), 0, 1, None), Ok(2));
    assert_eq!(admin_create(&mut contract, 100, 60), Ok(2));
    assert!(contract.instances[1].players.is_empty());
    assert_eq!(admin_create(&mut contract, 100, 60), Ok(3));
    assert_eq!(contract.instances[2].players, vec![admin_bob()]);
    assert!(contract.unlisted_players.is_empty());
    assert!(contract.is_valid());
}

#[test]
fn the_zero_address_as_a_player_leaves_no_valid_state() {
    let mut contract = admin_deployed();
    assert_eq!(admin_create(&mut contract, 100, 60), Ok(1));
    let mut listed = contract.clone();
    assert_eq!(listed.add_player(1, &Address::zero()), 1);
    assert_eq!(listed.get_ticket_owner(1, 1), Ok(Address::zero()));
    assert!(!listed.is_valid());
    assert_eq!(contract.add_player(5, &Address::zero()), 1);
    assert_eq!(contract.get_nb_players(5), 1);
    assert!(!contract.is_valid());
}

#[test]
fn payments_are_written_to_the_journal_in_order() {
    let mut contract = admin_deployed();
    assert_eq!(contract.set_log_enable_status(&admin_call(admin_owner(), 1), true), Ok(()));
    assert_eq!(admin_create(&mut contract, 100, 60), Ok(1));
    contract.take_journal();
    let prize = contract.instances[0].info.prize_info.clone();
    contract.pay_rewards_to_sponsor(3, 1, admin_sponsor(), 0);
    assert!(contract.journal.is_empty());
    contract.pay_rewards_to_sponsor(3, 1, admin_sponsor(), 5);
    contract.func_send_prize(&prize, &admin_alice());
    assert_eq!(
        contract.take_journal(),
        vec![
            Action::DirectEgld { to: admin_sponsor(), amount: 5, memo: Memo::SponsorRewards },
            Action::Log(Event::SendRewards { epoch: 3, iid: 1, rewards: 5 }),
            Action::Direct {
                to: admin_alice(),
                token_identifier: b"TOK-123456".to_vec(),
                token_nonce: 4,
                amount: 50,
                memo: Memo::SendPrize,
            },
        ]
    );
}

#[test]
fn update_fees_and_compute_rewards_splits_a_payment() {
    let mut contract = admin_deployed();
    let admin = admin_call(admin_owner(), 1);
    assert_eq!(contract.set_fee_policy(&admin, 0, 0, 15), Ok(()));
    assert_eq!(contract.update_fees_and_compute_rewards(3, 0, 90, Some(admin_bob())), Ok(0));
    assert_eq!(contract.get_fee_pool(), 0);
    assert_eq!(contract.update_fees_and_compute_rewards(3, 1_001, 90, Some(admin_bob())), Ok(900));
    assert_eq!(contract.get_link_reward_pool(admin_bob()), 100);
    assert_eq!(contract.get_fee_pool(), 1);
    assert_eq!(contract.update_fees_and_compute_rewards(3, 1_001, 90, None), Ok(900));
    assert_eq!(contract.get_link_reward_pool(admin_bob()), 100);
    assert_eq!(contract.get_fee_pool(), 102);
    assert_eq!(contract.update_fees_and_compute_rewards(3, 7, 0, Some(admin_alice())), Ok(0));
    assert_eq!(contract.get_link_reward_pool(admin_alice()), 1);
    assert_eq!(contract.get_fee_pool(), 108);
    assert_eq!(contract.quote_fees(7, 0, Some(admin_alice())).map(|p| (p.sponsor, p.link, p.owner)), Ok((0, 1, 6)));

    let mut bare = PrizeContract::new();
    assert_eq!(
        bare.update_fees_and_compute_rewards(3, 5, 0, Some(admin_alice())),
        Err(Error::StorageDecode)
    );
    assert_eq!(bare.update_fees_and_compute_rewards(3, 5, 10, None), Ok(0));
    assert_eq!(bare.get_fee_pool(), 5);
    assert_eq!(bare.update_fees_and_compute_rewards(3, 0, 10, Some(admin_alice())), Ok(0));
}

#[test]
fn every_error_has_its_message() {
    let expected = [
        (Error::OnlyOwner, "Endpoint can only be called by owner"),
        (Error::CallerBlacklisted, "Caller blacklisted"),
        (Error::MaxInstancesReached, "Max instances reached for this sponsor"),
        (Error::DurationOutOfRange, "Duration out of allowed range"),
        (Error::NullPrize, "Prize cannot be null"),
        (Error::PremiumNotAllowed, "Premium is not allowed"),
        (Error::SponsorInfoTooLong, "Sponsor info length out of range"),
        (Error::UnexpectedState, "Instance is not in the expected state"),
        (Error::BadCaller, "Bad caller"),
        (Error::NotActive, "Instance is not active"),
        (Error::AlreadyPlayed, "Player has already played"),
        (Error::WrongFees, "Wrong fees amount"),
        (Error::WrongState, "Instance is not in the good state"),
        (Error::NotWinner, "Prize can only be claimed by the winner"),
        (Error::NoSuchInstance, "Instance does not exist"),
        (Error::WrongRewards, "Wrong value for rewards"),
        (Error::NoFees, "No fees to claim"),
        (Error::NoRewards, "No rewards to claim"),
        (Error::NoDonation, "No donation to claim"),
        (Error::DurationOrder, "Min duration must be lower or equal to Max duration"),
        (Error::AlreadyInDisableState, "Instance is already in the expected disable state"),
        (Error::AlreadyDrawn, "Instance cannot change once its winner is drawn"),
        (Error::AlreadyBlacklisted, "Address already blacklisted"),
        (Error::NotBlacklisted, "Address not blacklisted"),
        (Error::IndexOutOfRange, "index out of range"),
        (Error::StorageDecode, "storage decode error: input too short"),
        (Error::Overflow, "Value out of range"),
    ];
    for (error, message) in expected {
        assert_eq!(error.message(), message);
    }
    let memos = [
        (Memo::SendPrize, "Send prize"),
        (Memo::SponsorRewards, "Sponsor rewards"),
        (Memo::FeesClaimed, "Fees from pool claimed"),
        (Memo::LinkRewardsClaimed, "Link rewards claimed"),
        (Memo::DonationsClaimed, "Donations from pool claimed"),
        (Memo::PrizeClaimed, "Prize claimed"),
        (Memo::WinningTicket, "You have the winning ticket! Congratulations!"),
        (Memo::LotoFee, "loto fee"),
        (Memo::TicketRefund, "Loto cancelled, this is your ticket refund!"),
    ];
    for (memo, text) in memos {
        assert_eq!(memo.text(), text);
    }
}
