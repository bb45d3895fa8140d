use omp_remote::actor::{AgentActorConfig, RegistryError};
use omp_remote::ids::AgentId;
use omp_remote::registry::AgentRegistry;

fn agent(value: &str) -> AgentId {
    AgentId::new(value.to_owned()).unwrap()
}

#[test]
fn registry_runs_one_agent_per_id_and_lists_them_in_order() {
    let mut registry: AgentRegistry<u32> = AgentRegistry::new(AgentActorConfig::default());
    assert_eq!(registry.config(), AgentActorConfig::default());
    registry.create(agent("beta"), 2).unwrap();
    registry.create(agent("alpha"), 1).unwrap();
    registry.create(agent("gamma"), 3).unwrap();
    let duplicate = registry.create(agent("beta"), 20).unwrap_err();
    assert_eq!(duplicate.to_string(), "agent beta already exists");
    assert_eq!(registry.get(&agent("beta")), Some(&2));
    assert!(registry.contains(&agent("alpha")));
    let listed: Vec<String> =
        registry.list().iter().map(|id| id.as_str().to_owned()).collect();
    assert_eq!(listed, vec!["alpha".to_owned(), "beta".to_owned(), "gamma".to_owned()]);
    assert_eq!(registry.remove(&agent("alpha")), Ok(1));
    assert!(matches!(registry.remove(&agent("alpha")), Err(RegistryError::NotFound(id)) if id.as_str() == "alpha"));
    assert_eq!(registry.get(&agent("alpha")), None);
    assert!(!registry.contains(&agent("alpha")));
}
