use prize::action::{Action, Memo};
use prize::address::Address;
use prize::context::CallContext;
use prize::egld_loto::contract::{Loto, LotoContract};
use prize::egld_loto::error::Error;
use prize::egld_loto::instance_info::{Instance, InstanceInfo, SponsorInfo};
use prize::lottery::instance_status::InstanceStatus;

fn egld_owner() -> Address {
    Address::new(2, 1)
}

fn egld_sponsor() -> Address {
    Address::new(2, 2)
}

fn egld_p1() -> Address {
    Address::new(2, 3)
}

fn egld_p2() -> Address {
    Address::new(2, 4)
}

fn egld_call(caller: Address, now: u64) -> CallContext {
    CallContext::new(caller, egld_owner(), now, 0).unwrap()
}

fn egld_create(contract: &mut LotoContract, sponsor: Address, now: u64, duration: u64) -> Result<u32, Error> {
    contract.create_instance(
        &egld_call(sponsor, now),
        77,
        duration,
        b"pseudo".to_vec(),
        b"url".to_vec(),
        b"pic".to_vec(),
        b"free".to_vec(),
    )
}

fn egld_two_rounds() -> LotoContract {
    let mut contract = LotoContract::new();
    assert_eq!(contract.init(), Ok(()));
    assert_eq!(egld_create(&mut contract, egld_sponsor(), 10, 10), Ok(1));
    assert_eq!(egld_create(&mut contract, egld_p1(), 10, 100), Ok(2));
    assert_eq!(contract.play(&egld_call(egld_p1(), 15), 1), Ok(()));
    assert_eq!(contract.play(&egld_call(egld_p2(), 15), 1), Ok(()));
    contract
}

#[test]
fn egld_create_records_the_prize() {
    let mut contract = LotoContract::new();
    assert_eq!(egld_create(&mut contract, egld_sponsor(), 10, 0), Err(Error::NullDuration));
    assert_eq!(egld_create(&mut contract, egld_sponsor(), u64::MAX - 1, 2), Err(Error::Overflow));
    assert_eq!(egld_create(&mut contract, egld_sponsor(), u64::MAX - 1, 1), Ok(1));
    assert_eq!(
        contract.instances[0],
        Instance {
            iid: 1,
            info: InstanceInfo {
                sponsor_address: egld_sponsor(),
                prize: 77,
                sponsor_info: SponsorInfo {
                    pseudo: b"pseudo".to_vec(),
                    url: b"url".to_vec(),
                    picture_link: b"pic".to_vec(),
                    free_text: b"free".to_vec(),
                },
                deadline: u64::MAX,
                winner_address: Address::zero(),
                claimed_status: false,
            },
            players: Vec::new(),
        }
    );
    contract.iid_counter = u32::MAX;
    assert_eq!(egld_create(&mut contract, egld_sponsor(), 10, 5), Err(Error::Overflow));
}

#[test]
fn egld_round_from_play_to_claim() {
    let mut contract = egld_two_rounds();
    assert_eq!(contract.play(&egld_call(egld_p1(), 15), 1), Err(Error::AlreadyPlayed));
    assert_eq!(contract.play(&egld_call(egld_p1(), 15), 5), Err(Error::NotActive));
    assert_eq!(contract.play(&egld_call(egld_sponsor(), 21), 1), Err(Error::NotActive));
    assert_eq!(contract.claim(&egld_call(egld_p1(), 21), 1), Err(Error::WrongState));
    assert_eq!(contract.trigger(&egld_call(egld_p1(), 21), 1, 3), Err(Error::BadCaller));
    assert_eq!(contract.trigger(&egld_call(egld_sponsor(), 20), 1, 3), Err(Error::WrongState));
    assert_eq!(contract.trigger(&egld_call(egld_sponsor(), 21), 1, 3), Ok(()));
    assert_eq!(contract.get_instance_status(21, 1), InstanceStatus::Triggered);
    assert_eq!(contract.has_won(1, egld_p2()), Ok(true));
    assert_eq!(contract.has_won(1, egld_p1()), Ok(false));
    assert_eq!(contract.has_won(4, egld_p1()), Err(Error::NoSuchInstance));
    assert_eq!(contract.claim(&egld_call(egld_p1(), 22), 1), Err(Error::NotWinner));
    assert_eq!(contract.claim(&egld_call(egld_p2(), 22), 1), Ok(()));
    assert_eq!(
        contract.take_journal(),
        vec![Action::DirectEgld { to: egld_p2(), amount: 77, memo: Memo::PrizeClaimed }]
    );
    assert_eq!(contract.get_instance_status(22, 1), InstanceStatus::Claimed);
    assert_eq!(contract.claim(&egld_call(egld_p2(), 22), 1), Err(Error::WrongState));
}

#[test]
fn egld_owner_draws_and_cleans() {
    let mut contract = egld_two_rounds();
    assert_eq!(
        contract.trigger_ended_instances(&egld_call(egld_p1(), 200), 0),
        Err(Error::CallerNotAllowed)
    );
    assert_eq!(contract.trigger_ended_instances(&egld_call(egld_owner(), 200), 0), Ok(()));
    assert_eq!(contract.instances[0].info.winner_address, egld_p1());
    assert_eq!(contract.instances[1].info.winner_address, egld_p1());
    assert_eq!(contract.claim(&egld_call(egld_p1(), 201), 2), Ok(()));
    assert_eq!(
        contract.clean_claimed_instances(&egld_call(egld_p1(), 201)),
        Err(Error::CallerNotAllowed)
    );
    assert_eq!(contract.clean_claimed_instances(&egld_call(egld_owner(), 201)), Ok(()));
    assert_eq!(contract.get_nb_instances(), 1);
    assert_eq!(contract.get_instance_status(201, 2), InstanceStatus::NotExisting);
    assert_eq!(contract.get_instance_status(201, 1), InstanceStatus::Triggered);
    let before = contract.clone();
    assert_eq!(contract.init(), Ok(()));
    assert_eq!(contract, before);
}

#[test]
fn egld_views_list_and_tell() {
    let contract = egld_two_rounds();
    assert_eq!(contract.get_nb_instances(), 2);
    assert_eq!(contract.get_instance_ids(21, InstanceStatus::Ended), vec![1]);
    assert_eq!(contract.get_instance_ids(21, InstanceStatus::Running), vec![2]);
    assert_eq!(contract.get_instance_ids(15, InstanceStatus::Running), vec![1, 2]);
    assert_eq!(contract.get_instance_ids(15, InstanceStatus::NotExisting), Vec::<u32>::new());
    assert!(contract.is_instance_with_status(21, InstanceStatus::Ended));
    assert!(!contract.is_instance_with_status(15, InstanceStatus::Ended));
    assert_eq!(contract.get_sponsor_instances(egld_sponsor()), vec![1]);
    assert_eq!(contract.get_sponsor_instances(egld_p1()), vec![2]);
    assert_eq!(contract.get_player_instances(egld_p1()), vec![1]);
    assert_eq!(contract.get_player_instances(egld_sponsor()), Vec::<u32>::new());
    assert!(contract.has_played(1, egld_p2()));
    assert!(!contract.has_played(2, egld_p2()));
    assert!(!contract.has_played(3, egld_p2()));
    assert_eq!(contract.get_remaining_time(12, 1), Ok(8));
    assert_eq!(contract.get_remaining_time(20, 1), Ok(0));
    assert_eq!(contract.get_remaining_time(20, 3), Err(Error::NoSuchInstance));
    let (info, status, players) = contract.get_instance_info(21, 1).unwrap();
    assert_eq!(info, contract.instances[0].info);
    assert_eq!(status, InstanceStatus::Ended);
    assert_eq!(players, 2);
    assert_eq!(contract.get_instance_info(21, 3).unwrap_err(), Error::NoSuchInstance);
    assert_eq!(Error::NoSuchInstance.message(), "Instance does not exists");
    assert_eq!(Error::CallerNotAllowed.message(), "Caller address not allowed");
    assert_eq!(Error::NullDuration.message(), "duration cannot be null");
    assert_eq!(Error::WrongState.message(), "Instance is not in the good state");
    assert_eq!(
        Error::BadCaller.message(),
        "Instance can only be triggered by its sponsor or by administrator"
    );
    assert_eq!(Error::NotActive.message(), "Instance is not active");
    assert_eq!(Error::AlreadyPlayed.message(), "Player has already played");
    assert_eq!(Error::NotWinner.message(), "Prize can only be claimed by the winner");
    assert_eq!(Error::Overflow.message(), "Value out of range");
}
