use rtgc_siberian_cities::mission_system::{
    GameTime, Mission, MissionManager, MissionObjective, MissionReward, MissionStatus, MissionType,
};

#[test]
fn test_mission_creation() {
    let mut manager = MissionManager::new();

    let id = manager.create_mission("Test Mission", "A test mission", MissionType::Delivery);

    assert_eq!(id, 1);

    let mission = manager.get_mission(id).unwrap();
    assert_eq!(mission.title, "Test Mission");
    assert_eq!(mission.status, MissionStatus::Available);
}

#[test]
fn test_mission_accept_and_complete() {
    let mut manager = MissionManager::new();

    let id = manager.create_mission("Delivery", "Deliver package", MissionType::Delivery);

    if let Some(mission) = manager.get_mission_mut(id) {
        mission.objectives.push(MissionObjective::new("Deliver", 1, "delivery"));
    }

    manager.accept_mission(id);

    manager.update_mission_progress(id, "delivery", 1);

    let mission = manager.get_mission(id).unwrap();
    assert_eq!(mission.status, MissionStatus::Completed);
}

#[test]
fn objective_completes_at_required_count() {
    let mut obj = MissionObjective::new("Collect items", 10, "collect");
    assert_eq!(obj.current, 0);
    assert!(!obj.is_complete());
    obj.current = 9;
    assert!(!obj.is_complete());
    obj.current = 10;
    assert!(obj.is_complete());
    obj.current = 12;
    assert!(obj.is_complete());
}

#[test]
fn ids_count_up_from_one() {
    let mut manager = MissionManager::new();
    let a = manager.create_mission("A", "first", MissionType::Explore);
    let b = manager.create_mission("B", "second", MissionType::Race);
    assert_eq!((a, b), (1, 2));
    assert_eq!(manager.get_mission(b).unwrap().title, "B");
    assert!(manager.get_mission(3).is_none());
}

#[test]
fn add_mission_stores_under_its_own_id() {
    let mut manager = MissionManager::new();
    let mission = Mission::new(40, "Forty", "by hand", MissionType::Survive);
    let id = manager.add_mission(mission);
    assert_eq!(id, 40);
    assert_eq!(manager.get_mission(40).unwrap().title, "Forty");
}

#[test]
fn accept_moves_only_available_missions() {
    let mut manager = MissionManager::new();
    let id = manager.create_mission("A", "a", MissionType::Delivery);
    assert!(manager.accept_mission(id));
    assert_eq!(manager.get_mission(id).unwrap().status, MissionStatus::Active);
    // an active mission stays active; the mission is still found
    assert!(manager.accept_mission(id));
    assert_eq!(manager.get_mission(id).unwrap().status, MissionStatus::Active);
    assert!(!manager.accept_mission(99));
}

#[test]
fn progress_never_goes_down() {
    let mut manager = MissionManager::new();
    let id = manager.create_mission("Collect", "logs", MissionType::Delivery);
    if let Some(mission) = manager.get_mission_mut(id) {
        mission.objectives.push(MissionObjective::new("Logs", 5, "logs"));
        mission.objectives.push(MissionObjective::new("Fuel", 1, "fuel"));
    }
    manager.accept_mission(id);
    manager.update_mission_progress(id, "logs", 3);
    manager.update_mission_progress(id, "logs", 2);
    let mission = manager.get_mission(id).unwrap();
    assert_eq!(mission.objectives[0].current, 3);
    assert_eq!(mission.objectives[1].current, 0);
    assert_eq!(mission.status, MissionStatus::Active);
    manager.update_mission_progress(id, "logs", 5);
    manager.update_mission_progress(id, "fuel", 1);
    assert_eq!(manager.get_mission(id).unwrap().status, MissionStatus::Completed);
}

#[test]
fn reward_is_claimed_once() {
    let mut manager = MissionManager::new();
    let reward = MissionReward { money: 500, experience: 20, items: vec![("winch".to_string(), 1)], reputation: 3 };
    let mission = Mission::new(7, "Haul", "haul logs", MissionType::Delivery)
        .with_objective(MissionObjective::new("Haul", 1, "haul"))
        .with_reward(reward)
        .with_giver("Ivan");
    assert_eq!(mission.giver, "Ivan");
    manager.add_mission(mission);
    assert!(manager.claim_reward(7).is_none());
    manager.accept_mission(7);
    manager.update_mission_progress(7, "haul", 1);
    let got = manager.claim_reward(7).unwrap();
    assert_eq!(got.money, 500);
    assert_eq!(got.experience, 20);
    assert_eq!(got.items, vec![("winch".to_string(), 1)]);
    assert_eq!(got.reputation, 3);
    assert_eq!(manager.get_mission(7).unwrap().status, MissionStatus::Claimed);
    assert!(manager.claim_reward(7).is_none());
}

#[test]
fn status_lists_follow_statuses() {
    let mut manager = MissionManager::new();
    let a = manager.create_mission("A", "a", MissionType::Delivery);
    let b = manager.create_mission("B", "b", MissionType::Delivery);
    manager.accept_mission(b);
    let available = manager.get_available_missions();
    assert_eq!(available.len(), 1);
    assert_eq!(available[0].id, a);
    let active = manager.get_active_missions();
    assert_eq!(active.len(), 1);
    assert_eq!(active[0].id, b);
    assert!(manager.get_completed_missions().is_empty());
}

#[test]
fn time_limit_fails_only_active_timed_missions() {
    let mut mission = Mission::new(1, "Rush", "hurry", MissionType::Race);
    assert!(!mission.check_time_limit(true));
    mission.time_limit = Some(GameTime { bits: 60.0f32.to_bits() });
    mission.start_time = Some(GameTime { bits: 0.0f32.to_bits() });
    assert!(!mission.check_time_limit(true));
    mission.accept();
    assert_eq!(mission.status, MissionStatus::Active);
    assert!(!mission.check_time_limit(false));
    assert_eq!(mission.status, MissionStatus::Active);
    assert!(mission.check_time_limit(true));
    assert_eq!(mission.status, MissionStatus::Failed);
}

#[test]
fn complete_claims_only_completed() {
    let mut mission = Mission::new(2, "X", "x", MissionType::Collect);
    mission.complete();
    assert_eq!(mission.status, MissionStatus::Available);
    mission.fail();
    assert_eq!(mission.status, MissionStatus::Failed);
}

#[test]
fn default_reward_is_empty() {
    let reward = MissionReward::default();
    assert_eq!(reward.money, 0);
    assert_eq!(reward.experience, 0);
    assert!(reward.items.is_empty());
    assert_eq!(reward.reputation, 0);
}
