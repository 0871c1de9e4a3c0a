use pet_market::env::Env;
use pet_market::error::ContractError;
use pet_market::pet::contract::{
    empty_store, feed_pet, handle, init, query, try_create_pet, try_feed,
};
use pet_market::pet::msg::{
    HandleAnswer, HandleMsg, HandleReply, InitMsg, QueryAnswer, QueryMsg, TokenMessage,
};
use pet_market::pet::pets::{append_pet, get_pet, get_pets, update_pet, Pet, PetState};
use pet_market::pet::state::{Config, ContractConfig, ReadOnlyConfig, SecretToken};
use secret_cosmwasm_std::testing::{mock_env, MockApi, MOCK_CONTRACT_ADDR};
use secret_cosmwasm_std::{to_binary, Api, HumanAddr, MemoryStorage, ReadonlyStorage, Storage};

fn canonical(address: &str) -> Vec<u8> {
    MockApi::new(20).canonical_address(&HumanAddr::from(address)).unwrap().as_slice().to_vec()
}

fn env_at(sender: &str, time: u64) -> Env {
    let env = mock_env(sender, &[]);
    Env {
        sender: env.message.sender.0.clone(),
        sender_canonical: canonical(sender),
        block_time: time,
        sent_funds: Vec::new(),
        contract_code_hash: env.contract_code_hash.clone(),
    }
}

fn library_env(sender: &str) -> Env {
    let time = mock_env(sender, &[]).block.time;
    env_at(sender, time)
}

fn init_msg() -> InitMsg {
    InitMsg {
        accepted_token: SecretToken {
            address: MOCK_CONTRACT_ADDR.to_string(),
            hash: "".to_string(),
            viewing_key: "supersecret".to_string(),
        },
        admin: None,
    }
}

fn started() -> MemoryStorage {
    let mut storage = empty_store();
    init(&mut storage, &library_env("sender"), init_msg()).unwrap();
    storage
}

fn pet(id: u64, name: &str, last_fed: u64) -> Pet {
    Pet {
        id,
        name: name.to_string(),
        last_fed,
        allowed_feed_timespan: 3600,
        total_saturation_time: 14200,
        life_state: PetState::Alive {},
    }
}

fn create(storage: &mut MemoryStorage, sender: &str, time: u64, name: &str) -> u64 {
    let reply =
        try_create_pet(storage, &env_at(sender, time), 3600, 14200, name.to_string()).unwrap();
    match reply {
        HandleReply::Created { answer: HandleAnswer::CreatePet { id, .. } } => id,
        _ => panic!("Invalid message returned. "),
    }
}

fn payload(id: u64) -> Option<Vec<u8>> {
    Some(to_binary(&id).unwrap().0)
}

fn feed(
    storage: &mut MemoryStorage,
    owner: &str,
    id: u64,
    time: u64,
) -> Result<HandleReply, ContractError> {
    try_feed(storage, &env_at(MOCK_CONTRACT_ADDR, time), Some(canonical(owner)), 7, payload(id))
}

fn list_key(owner: &[u8], suffix: &[u8]) -> Vec<u8> {
    let mut key = vec![0u8, 4];
    key.extend_from_slice(b"pets");
    key.push((owner.len() / 256) as u8);
    key.push((owner.len() % 256) as u8);
    key.extend_from_slice(owner);
    key.extend_from_slice(suffix);
    key
}

fn state_key(suffix: &[u8]) -> Vec<u8> {
    let mut key = vec![0u8, 5];
    key.extend_from_slice(b"state");
    key.extend_from_slice(suffix);
    key
}

#[test]
fn contract_test_init() {
    let mut storage = MemoryStorage::new();
    let env = library_env("sender");
    let msg = init_msg();

    let _res = init(&mut storage, &env, msg).unwrap();
}

#[test]
fn test_create_pet() {
    let mut storage = MemoryStorage::new();
    let env = library_env("sender");
    let msg = init_msg();
    let _res = init(&mut storage, &env, msg).unwrap();

    //create a pet
    let create_pet_msg = HandleMsg::CreatePet {
        allowed_feed_timespan: 420,
        total_saturation_time: 14700,
        name: String::from("work or delete"),
    };
    let _res = handle(&mut storage, &env, create_pet_msg).unwrap();

    //query to check if it was created
    let query_one_msg = QueryMsg::Pet { id: 1, owner: env.sender_canonical.clone() };
    let answer = query(&storage, query_one_msg).unwrap();

    //created pet id should be 1 as its the first one.
    let status = match answer {
        QueryAnswer::PetInfoResponse {
            allowed_feed_timespan: _,
            total_saturation_time: _,
            name: _,
            id,
        } => {
            matches!(id, 1)
        }
        _ => panic!("Invalid message returned. "),
    };
    assert!(status);
}

#[test]
fn init_stores_config_and_sends_two_messages() {
    let mut storage = MemoryStorage::new();
    let mut env = library_env("sender");
    env.contract_code_hash = "codehash".to_string();
    let mut msg = init_msg();
    msg.accepted_token.hash = "tokenhash".to_string();
    let messages = init(&mut storage, &env, msg.clone()).unwrap();
    assert_eq!(
        messages,
        vec![
            TokenMessage::RegisterReceive {
                code_hash: "codehash".to_string(),
                token_hash: "tokenhash".to_string(),
                token_address: MOCK_CONTRACT_ADDR.to_string(),
            },
            TokenMessage::SetViewingKey {
                key: "supersecret".to_string(),
                token_hash: "tokenhash".to_string(),
                token_address: MOCK_CONTRACT_ADDR.to_string(),
            },
        ]
    );
    let config = ReadOnlyConfig::from_storage(&storage).state().unwrap();
    assert_eq!(
        config,
        ContractConfig { accepted_token: msg.accepted_token, admin: Some("sender".to_string()) }
    );
    assert!(storage.get(&state_key(b"config")).is_some());
}

#[test]
fn pet_init_keeps_named_admin() {
    let mut storage = MemoryStorage::new();
    let mut msg = init_msg();
    msg.admin = Some("boss".to_string());
    init(&mut storage, &library_env("sender"), msg).unwrap();
    let config = Config::from_storage(&mut storage).config().unwrap();
    assert_eq!(config.admin, Some("boss".to_string()));
}

#[test]
fn config_is_missing_before_init() {
    let mut storage = MemoryStorage::new();
    assert_eq!(ReadOnlyConfig::from_storage(&storage).state(), Err(ContractError::NotFound));
    assert_eq!(Config::from_storage(&mut storage).config(), Err(ContractError::NotFound));
    assert_eq!(
        query(&storage, QueryMsg::AcceptedToken {}),
        Err(ContractError::NotFound)
    );
    assert_eq!(feed(&mut storage, "sender", 1, 10), Err(ContractError::NotFound));
}

#[test]
fn broken_config_is_a_serialization_error() {
    let mut storage = MemoryStorage::new();
    storage.set(&state_key(b"config"), &[1, 2, 3]);
    assert_eq!(
        ReadOnlyConfig::from_storage(&storage).state(),
        Err(ContractError::SerializationError)
    );
}

#[test]
fn set_config_reads_back() {
    let mut storage = MemoryStorage::new();
    let config = ContractConfig {
        accepted_token: SecretToken {
            address: "addr".to_string(),
            hash: "hash".to_string(),
            viewing_key: "key".to_string(),
        },
        admin: None,
    };
    Config::from_storage(&mut storage).set_config(&config).unwrap();
    assert_eq!(ReadOnlyConfig::from_storage(&storage).state(), Ok(config));
}

#[test]
fn counter_starts_at_zero_and_reads_back() {
    let mut storage = MemoryStorage::new();
    assert_eq!(ReadOnlyConfig::from_storage(&storage).pets_count(), 0);
    Config::from_storage(&mut storage).set_pets_count(41).unwrap();
    assert_eq!(ReadOnlyConfig::from_storage(&storage).pets_count(), 41);
    assert_eq!(Config::from_storage(&mut storage).pets_count(), 41);
    assert_eq!(storage.get(&state_key(b"pets_count")), Some(vec![41, 0, 0, 0, 0, 0, 0, 0]));
}

#[test]
fn broken_counter_reads_as_zero() {
    let mut storage = MemoryStorage::new();
    storage.set(&state_key(b"pets_count"), &[1, 2, 3]);
    assert_eq!(ReadOnlyConfig::from_storage(&storage).pets_count(), 0);
    assert_eq!(
        ReadOnlyConfig::from_storage(&storage).checked_pets_count(),
        Err(ContractError::SerializationError)
    );
}

#[test]
fn counter_is_read_from_the_first_eight_bytes() {
    let mut storage = MemoryStorage::new();
    assert_eq!(ReadOnlyConfig::from_storage(&storage).checked_pets_count(), Ok(0));
    storage.set(&state_key(b"pets_count"), &[2, 1, 0, 0, 0, 0, 0, 0, 9, 9]);
    assert_eq!(ReadOnlyConfig::from_storage(&storage).checked_pets_count(), Ok(258));
    storage.set(&state_key(b"pets_count"), &[255; 8]);
    assert_eq!(ReadOnlyConfig::from_storage(&storage).pets_count(), u64::MAX);
    storage.set(&state_key(b"pets_count"), &[1, 0, 0, 0, 0, 0, 0]);
    assert_eq!(
        ReadOnlyConfig::from_storage(&storage).checked_pets_count(),
        Err(ContractError::SerializationError)
    );
}

#[test]
fn broken_counter_stops_creation() {
    let mut storage = started();
    storage.set(&state_key(b"pets_count"), &[1, 2, 3]);
    assert_eq!(
        try_create_pet(&mut storage, &env_at("sender", 0), 1, 2, "x".to_string()),
        Err(ContractError::SerializationError)
    );
    assert_eq!(storage.get(&state_key(b"pets_count")), Some(vec![1, 2, 3]));
    assert_eq!(get_pets(&storage, &canonical("sender"), 0, 30), Ok((vec![], 0)));
}

#[test]
fn empty_store_holds_nothing() {
    let storage = empty_store();
    assert_eq!(storage.get(&state_key(b"config")), None);
    assert_eq!(storage.get(&state_key(b"pets_count")), None);
    assert_eq!(ReadOnlyConfig::from_storage(&storage).state(), Err(ContractError::NotFound));
    assert_eq!(get_pets(&storage, &canonical("sender"), 0, 30), Ok((vec![], 0)));
}

#[test]
fn unresolved_owner_is_invalid_input() {
    let mut storage = started();
    create(&mut storage, "sender", 0, "pet");
    let env = env_at(MOCK_CONTRACT_ADDR, 3601);
    assert_eq!(try_feed(&mut storage, &env, None, 7, payload(1)), Err(ContractError::InvalidInput));
    let stranger = env_at("sender", 3601);
    assert_eq!(
        try_feed(&mut storage, &stranger, None, 7, payload(1)),
        Err(ContractError::InvalidInput)
    );
    assert_eq!(get_pet(&storage, &canonical("sender"), 1).unwrap().last_fed, 0);
}

#[test]
fn accepted_token_is_answered() {
    let storage = started();
    assert_eq!(
        query(&storage, QueryMsg::AcceptedToken {}),
        Ok(QueryAnswer::AcceptedToken {
            address: MOCK_CONTRACT_ADDR.to_string(),
            hash: "".to_string()
        })
    );
}

#[test]
fn owner_without_pets_has_empty_pages_and_no_pet() {
    let storage = started();
    let owner = canonical("nobody");
    for (page, page_size) in [(0u32, 30u32), (0, 0), (3, 7), (u32::MAX, u32::MAX)] {
        assert_eq!(get_pets(&storage, &owner, page, page_size), Ok((vec![], 0)));
    }
    for id in [0u64, 1, 2, u64::MAX] {
        assert_eq!(get_pet(&storage, &owner, id), Err(ContractError::NotFound));
    }
    assert_eq!(
        query(&storage, QueryMsg::LastFed { id: 1, owner: owner.clone() }),
        Err(ContractError::NotFound)
    );
    assert_eq!(
        query(&storage, QueryMsg::Pets { owner, page: None, page_size: None }),
        Ok(QueryAnswer::Pets { size: 0, pets: vec![] })
    );
}

#[test]
fn update_without_list_is_not_found() {
    let mut storage = started();
    assert_eq!(
        update_pet(&mut storage, &canonical("nobody"), 1, pet(1, "a", 0)),
        Err(ContractError::NotFound)
    );
}

#[test]
fn ids_follow_creation_order() {
    let mut storage = started();
    assert_eq!(create(&mut storage, "sender", 0, "one"), 1);
    let owner = canonical("sender");
    assert_eq!(get_pet(&storage, &owner, 1).unwrap().name, "one");
    assert_eq!(create(&mut storage, "sender", 10, "two"), 2);
    assert!(feed(&mut storage, "sender", 1, 3700).is_ok());
    assert_eq!(get_pets(&storage, &owner, 0, 30).unwrap().1, 2);
    assert_eq!(create(&mut storage, "sender", 4000, "three"), 3);
    let (pets, total) = get_pets(&storage, &owner, 0, 30).unwrap();
    assert_eq!(total, 3);
    let ids: Vec<u64> = pets.iter().map(|pet| pet.id).collect();
    assert_eq!(ids, vec![3, 2, 1]);
    assert_eq!(ReadOnlyConfig::from_storage(&storage).pets_count(), 3);
}

#[test]
fn created_pet_is_stored_as_given() {
    let mut storage = started();
    let reply = try_create_pet(&mut storage, &env_at("sender", 77), 5, 9, "rex".to_string());
    assert_eq!(
        reply,
        Ok(HandleReply::Created {
            answer: HandleAnswer::CreatePet { name: "rex".to_string(), id: 1 }
        })
    );
    assert_eq!(
        get_pet(&storage, &canonical("sender"), 1),
        Ok(Pet {
            id: 1,
            name: "rex".to_string(),
            last_fed: 77,
            allowed_feed_timespan: 5,
            total_saturation_time: 9,
            life_state: PetState::Alive {},
        })
    );
}

#[test]
fn ids_start_at_one_for_each_owner() {
    let mut storage = started();
    assert_eq!(create(&mut storage, "alice", 0, "a"), 1);
    assert_eq!(create(&mut storage, "bobby", 0, "b"), 1);
    assert_eq!(create(&mut storage, "alice", 0, "c"), 2);
    assert_eq!(create(&mut storage, "bobby", 0, "d"), 2);
    assert_eq!(create(&mut storage, "bobby", 0, "e"), 3);
    assert_eq!(get_pets(&storage, &canonical("alice"), 0, 30).unwrap().1, 2);
    assert_eq!(get_pets(&storage, &canonical("bobby"), 0, 30).unwrap().1, 3);
    assert_eq!(get_pet(&storage, &canonical("alice"), 3), Err(ContractError::NotFound));
    assert_eq!(get_pet(&storage, &canonical("bobby"), 2).unwrap().name, "d");
    assert_eq!(get_pet(&storage, &canonical("alice"), 2).unwrap().name, "c");
    assert_eq!(ReadOnlyConfig::from_storage(&storage).pets_count(), 5);
}

#[test]
fn empty_feed_window_is_refused() {
    let mut storage = started();
    for (allowed, total) in [(10u64, 10u64), (10, 9), (0, 0)] {
        assert_eq!(
            try_create_pet(&mut storage, &env_at("sender", 0), allowed, total, "x".to_string()),
            Err(ContractError::InvalidInput)
        );
    }
    assert_eq!(get_pets(&storage, &canonical("sender"), 0, 30), Ok((vec![], 0)));
    assert_eq!(ReadOnlyConfig::from_storage(&storage).pets_count(), 0);
}

#[test]
fn full_counter_is_an_overflow() {
    let mut storage = started();
    Config::from_storage(&mut storage).set_pets_count(u64::MAX).unwrap();
    assert_eq!(
        try_create_pet(&mut storage, &env_at("sender", 0), 1, 2, "x".to_string()),
        Err(ContractError::Overflow)
    );
    assert_eq!(get_pets(&storage, &canonical("sender"), 0, 30), Ok((vec![], 0)));
}

#[test]
fn full_list_is_an_overflow() {
    let mut storage = started();
    let owner = canonical("sender");
    storage.set(&list_key(&owner, b"len"), &[255, 255, 255, 255]);
    assert_eq!(append_pet(&mut storage, &pet(1, "a", 0), &owner), Err(ContractError::Overflow));
    assert_eq!(
        try_create_pet(&mut storage, &env_at("sender", 0), 1, 2, "x".to_string()),
        Err(ContractError::Overflow)
    );
    assert_eq!(storage.get(&list_key(&owner, b"len")), Some(vec![255, 255, 255, 255]));
    assert_eq!(ReadOnlyConfig::from_storage(&storage).pets_count(), 0);
}

#[test]
fn malformed_length_is_a_serialization_error() {
    let mut storage = started();
    let owner = canonical("sender");
    storage.set(&list_key(&owner, b"len"), &[0, 0, 1]);
    assert_eq!(get_pets(&storage, &owner, 0, 30), Err(ContractError::SerializationError));
    assert_eq!(get_pet(&storage, &owner, 1), Err(ContractError::SerializationError));
    assert_eq!(
        append_pet(&mut storage, &pet(1, "a", 0), &owner),
        Err(ContractError::SerializationError)
    );
    assert_eq!(
        update_pet(&mut storage, &owner, 1, pet(1, "a", 0)),
        Err(ContractError::SerializationError)
    );
    assert_eq!(
        try_create_pet(&mut storage, &env_at("sender", 0), 1, 2, "x".to_string()),
        Err(ContractError::SerializationError)
    );
    assert_eq!(ReadOnlyConfig::from_storage(&storage).pets_count(), 0);
}

#[test]
fn unreadable_pet_is_a_serialization_error() {
    let mut storage = started();
    let owner = canonical("sender");
    create(&mut storage, "sender", 0, "one");
    create(&mut storage, "sender", 0, "two");
    create(&mut storage, "sender", 0, "three");
    storage.set(&list_key(&owner, &[0, 0, 0, 1]), &[9, 9]);
    assert_eq!(get_pet(&storage, &owner, 3).unwrap().name, "three");
    assert_eq!(get_pet(&storage, &owner, 2), Err(ContractError::SerializationError));
    assert_eq!(get_pet(&storage, &owner, 1), Err(ContractError::SerializationError));
    assert_eq!(get_pets(&storage, &owner, 0, 1).unwrap().0.len(), 1);
    assert_eq!(get_pets(&storage, &owner, 0, 2), Err(ContractError::SerializationError));
    assert_eq!(get_pets(&storage, &owner, 2, 1).unwrap().0[0].name, "one");
}

#[test]
fn unknown_life_state_is_a_serialization_error() {
    let mut storage = started();
    let owner = canonical("sender");
    create(&mut storage, "sender", 0, "one");
    let key = list_key(&owner, &[0, 0, 0, 0]);
    let mut bytes = storage.get(&key).unwrap();
    let last = bytes.len() - 4;
    bytes[last] = 2;
    storage.set(&key, &bytes);
    assert_eq!(get_pet(&storage, &owner, 1), Err(ContractError::SerializationError));
}

#[test]
fn pets_lie_under_the_owner_namespace() {
    let mut storage = started();
    let owner = canonical("sender");
    assert_eq!(storage.get(&list_key(&owner, b"len")), None);
    create(&mut storage, "sender", 5, "ab");
    assert_eq!(storage.get(&list_key(&owner, b"len")), Some(vec![0, 0, 0, 1]));
    let mut expected = vec![1u8, 0, 0, 0, 0, 0, 0, 0];
    expected.extend_from_slice(&[2, 0, 0, 0, 0, 0, 0, 0]);
    expected.extend_from_slice(b"ab");
    expected.extend_from_slice(&5u64.to_le_bytes());
    expected.extend_from_slice(&3600u64.to_le_bytes());
    expected.extend_from_slice(&14200u64.to_le_bytes());
    expected.extend_from_slice(&[0, 0, 0, 0]);
    assert_eq!(storage.get(&list_key(&owner, &[0, 0, 0, 0])), Some(expected));
    create(&mut storage, "sender", 5, "cd");
    assert_eq!(storage.get(&list_key(&owner, b"len")), Some(vec![0, 0, 0, 2]));
    assert!(storage.get(&list_key(&owner, &[0, 0, 0, 1])).is_some());
}

#[test]
fn append_and_update_by_hand() {
    let mut storage = MemoryStorage::new();
    let owner = canonical("sender");
    append_pet(&mut storage, &pet(7, "a", 1), &owner).unwrap();
    append_pet(&mut storage, &pet(8, "b", 2), &owner).unwrap();
    append_pet(&mut storage, &pet(7, "c", 3), &owner).unwrap();
    assert_eq!(get_pet(&storage, &owner, 7), Ok(pet(7, "c", 3)));
    assert_eq!(get_pet(&storage, &owner, 8), Ok(pet(8, "b", 2)));
    assert_eq!(get_pet(&storage, &owner, 9), Err(ContractError::NotFound));
    let mut changed = pet(7, "z", 30);
    changed.life_state = PetState::Dead {};
    update_pet(&mut storage, &owner, 7, changed.clone()).unwrap();
    assert_eq!(
        get_pets(&storage, &owner, 0, 30),
        Ok((vec![changed, pet(8, "b", 2), pet(7, "a", 1)], 3))
    );
    assert_eq!(
        update_pet(&mut storage, &owner, 9, pet(9, "n", 0)),
        Err(ContractError::NotFound)
    );
}

#[test]
fn other_owners_are_left_alone() {
    let mut storage = started();
    create(&mut storage, "alice", 0, "a");
    create(&mut storage, "bobby", 0, "b");
    let before = get_pets(&storage, &canonical("alice"), 0, 30);
    assert!(feed(&mut storage, "bobby", 1, 3601).is_ok());
    create(&mut storage, "bobby", 0, "c");
    assert_eq!(get_pets(&storage, &canonical("alice"), 0, 30), before);
    assert_eq!(
        ReadOnlyConfig::from_storage(&storage).state().unwrap().accepted_token.address,
        MOCK_CONTRACT_ADDR
    );
}

#[test]
fn pagination_is_newest_first() {
    let mut storage = started();
    let owner = canonical("sender");
    for i in 0..35u64 {
        assert_eq!(create(&mut storage, "sender", i, "p"), i + 1);
    }
    let (pets, total) = get_pets(&storage, &owner, 1, 30).unwrap();
    assert_eq!(total, 35);
    let ids: Vec<u64> = pets.iter().map(|pet| pet.id).collect();
    assert_eq!(ids, vec![5, 4, 3, 2, 1]);

    let (pets, total) = get_pets(&storage, &owner, 0, 30).unwrap();
    assert_eq!(total, 35);
    assert_eq!(pets.len(), 30);
    assert_eq!(pets[0].id, 35);
    assert_eq!(pets[29].id, 6);

    assert_eq!(get_pets(&storage, &owner, 2, 30), Ok((vec![], 35)));
    assert_eq!(get_pets(&storage, &owner, u32::MAX, u32::MAX), Ok((vec![], 35)));
    assert_eq!(get_pets(&storage, &owner, 0, 0), Ok((vec![], 35)));
    let (pets, _) = get_pets(&storage, &owner, 3, 10).unwrap();
    let ids: Vec<u64> = pets.iter().map(|pet| pet.id).collect();
    assert_eq!(ids, vec![5, 4, 3, 2, 1]);

    let answer =
        query(&storage, QueryMsg::Pets { owner: owner.clone(), page: None, page_size: None });
    match answer {
        Ok(QueryAnswer::Pets { size, pets }) => {
            assert_eq!(size, 35);
            assert_eq!(pets.len(), 30);
            assert_eq!(pets[0].id, 35);
        }
        _ => panic!("Invalid message returned. "),
    }
    let answer = query(&storage, QueryMsg::Pets { owner, page: Some(1), page_size: None });
    match answer {
        Ok(QueryAnswer::Pets { size, pets }) => {
            assert_eq!(size, 35);
            assert_eq!(pets.len(), 5);
        }
        _ => panic!("Invalid message returned. "),
    }
}

#[test]
fn feeding_scenario() {
    let mut storage = started();
    let owner = canonical("sender");
    create(&mut storage, "sender", 0, "pet");
    assert_eq!(feed(&mut storage, "sender", 1, 3600), Err(ContractError::NotFeedingTime));
    assert_eq!(get_pet(&storage, &owner, 1).unwrap().last_fed, 0);
    assert_eq!(
        feed(&mut storage, "sender", 1, 3601),
        Ok(HandleReply::Fed { id: 1, time: 3601, food_amount: 7 })
    );
    let fed = get_pet(&storage, &owner, 1).unwrap();
    assert_eq!(fed.last_fed, 3601);
    assert_eq!(fed.life_state, PetState::Alive {});
    assert_eq!(
        query(&storage, QueryMsg::LastFed { id: 1, owner: owner.clone() }),
        Ok(QueryAnswer::LastFedResponse { timestamp: 3601 })
    );
    assert!(!fed.is_dead(17800));
    assert!(!fed.is_dead(17801));
    assert!(fed.is_dead(17802));
    assert!(!fed.can_be_fed(17801));
    assert!(fed.can_be_fed(17800));
}

#[test]
fn feed_window_is_open_on_both_sides() {
    let p = pet(1, "a", 100);
    assert!(!p.can_be_fed(3700));
    assert!(p.can_be_fed(3701));
    assert!(p.can_be_fed(14299));
    assert!(!p.can_be_fed(14300));
    assert!(!p.is_dead(14300));
    assert!(p.is_dead(14301));
    assert!(!p.can_be_fed(0));
}

#[test]
fn time_spans_near_the_end_of_time() {
    let mut p = pet(1, "a", u64::MAX - 10);
    p.allowed_feed_timespan = 5;
    p.total_saturation_time = 100;
    assert!(!p.is_dead(u64::MAX));
    assert!(p.can_be_fed(u64::MAX));
    assert!(p.can_be_fed(u64::MAX - 4));
    assert!(!p.can_be_fed(u64::MAX - 5));
    p.allowed_feed_timespan = 11;
    assert!(!p.can_be_fed(u64::MAX));
}

#[test]
fn attempt_feed_is_the_state_machine() {
    let mut p = pet(1, "a", 0);
    assert_eq!(p.attempt_feed(3600), Err(ContractError::NotFeedingTime));
    assert_eq!(p, pet(1, "a", 0));
    assert_eq!(p.attempt_feed(14200), Err(ContractError::NotFeedingTime));
    assert_eq!(p.attempt_feed(5000), Ok(()));
    assert_eq!(p, pet(1, "a", 5000));
    assert_eq!(p.attempt_feed(8600), Err(ContractError::NotFeedingTime));
    assert_eq!(p.attempt_feed(8601), Ok(()));
    assert_eq!(p.last_fed, 8601);
    assert_eq!(p.attempt_feed(8601 + 14201), Err(ContractError::AlreadyDead));
    assert_eq!(p.life_state, PetState::Dead {});
    assert_eq!(p.last_fed, 8601);
    assert_eq!(p.attempt_feed(8601 + 3601), Err(ContractError::AlreadyDead));
    assert_eq!(p.last_fed, 8601);
    let mut q = pet(2, "b", 10);
    q.feed(3700);
    assert_eq!(q, pet(2, "b", 3700));
}

#[test]
fn death_is_final() {
    let mut storage = started();
    let owner = canonical("sender");
    create(&mut storage, "sender", 0, "pet");
    assert_eq!(feed(&mut storage, "sender", 1, 14201), Err(ContractError::AlreadyDead));
    assert_eq!(get_pet(&storage, &owner, 1).unwrap().life_state, PetState::Dead {});
    assert_eq!(get_pet(&storage, &owner, 1).unwrap().last_fed, 0);
    assert_eq!(feed(&mut storage, "sender", 1, 5000), Err(ContractError::AlreadyDead));
    assert_eq!(feed_pet(&mut storage, &owner, 1, 3601), Err(ContractError::AlreadyDead));
    assert_eq!(get_pet(&storage, &owner, 1).unwrap().life_state, PetState::Dead {});
}

#[test]
fn feeding_needs_the_accepted_token() {
    let mut storage = started();
    create(&mut storage, "sender", 0, "pet");
    let r =
        try_feed(&mut storage, &env_at("sender", 3601), Some(canonical("sender")), 7, payload(1));
    assert_eq!(r, Err(ContractError::Unauthorized));
    assert_eq!(get_pet(&storage, &canonical("sender"), 1).unwrap().last_fed, 0);
}

#[test]
fn feeding_needs_a_pet_id() {
    let mut storage = started();
    create(&mut storage, "sender", 0, "pet");
    let env = env_at(MOCK_CONTRACT_ADDR, 3601);
    assert_eq!(
        try_feed(&mut storage, &env, Some(canonical("sender")), 7, None),
        Err(ContractError::InvalidInput)
    );
    assert_eq!(
        try_feed(&mut storage, &env, Some(canonical("sender")), 7, Some(b"\"one\"".to_vec())),
        Err(ContractError::InvalidInput)
    );
    assert_eq!(
        try_feed(&mut storage, &env, Some(canonical("sender")), 7, Some(Vec::new())),
        Err(ContractError::InvalidInput)
    );
    assert_eq!(
        try_feed(&mut storage, &env, Some(canonical("sender")), 7, Some(b"1".to_vec())),
        Ok(HandleReply::Fed { id: 1, time: 3601, food_amount: 7 })
    );
}

#[test]
fn feeding_an_unknown_pet_is_not_found() {
    let mut storage = started();
    create(&mut storage, "sender", 0, "pet");
    assert_eq!(feed(&mut storage, "sender", 2, 3601), Err(ContractError::NotFound));
    assert_eq!(feed(&mut storage, "nobody", 1, 3601), Err(ContractError::NotFound));
}

#[test]
fn handle_receive_feeds() {
    let mut storage = started();
    create(&mut storage, "sender", 0, "pet");
    let msg = HandleMsg::Receive {
        sender: "anyone".to_string(),
        from: Some(canonical("sender")),
        amount: 12,
        msg: payload(1),
    };
    assert_eq!(
        handle(&mut storage, &env_at(MOCK_CONTRACT_ADDR, 4000), msg),
        Ok(HandleReply::Fed { id: 1, time: 4000, food_amount: 12 })
    );
    assert_eq!(get_pet(&storage, &canonical("sender"), 1).unwrap().last_fed, 4000);
}
