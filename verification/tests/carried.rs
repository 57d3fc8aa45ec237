//! The storage, model and resolver tests.

use starbus::bus::EventBus;
use starbus::context::Context;
use starbus::database::{DatabaseConnection, DatabasePool};
use starbus::executor::{ExecutionResult, ExecutorPoll};
use starbus::models::{Episode, Human, NewHuman};
use starbus::schema::{FieldError, Mutation, Query, Subscription};

fn create_test_context() -> Context {
    Context { db: DatabasePool }
}

fn test_human_query_helper(id: String) -> Result<Human, FieldError> {
    let ctx = create_test_context();
    Query::human(id, &ctx)
}

fn test_create_human_mutation_helper(
    new_human: NewHuman,
    bus: &mut EventBus,
) -> Result<Human, FieldError> {
    let ctx = create_test_context();
    Mutation::create_human(new_human, &ctx, bus)
}

#[test]
fn test_get_connection() {
    let pool = DatabasePool;
    let connection_result = pool.get_connection();

    // Verify that we can get a connection successfully
    assert!(connection_result.is_ok());
}

#[test]
fn test_find_human() {
    let connection = DatabaseConnection;
    let human_result = connection.find_human("1");

    // Verify that we can find a human successfully
    assert!(human_result.is_ok());

    let human = human_result.unwrap();
    assert_eq!(human.id, "1");
    assert_eq!(human.name, "Luke Skywalker");
    assert_eq!(human.appears_in.len(), 3);
    assert_eq!(human.home_planet, "Tatooine");
}

#[test]
fn test_insert_human() {
    let connection = DatabaseConnection;
    let new_human = NewHuman {
        name: "Han Solo".to_string(),
        appears_in: vec![Episode::NewHope, Episode::Empire, Episode::Jedi],
        home_planet: "Corellia".to_string(),
    };

    let human_result = connection.insert_human(&new_human);

    // Verify that we can insert a human successfully
    assert!(human_result.is_ok());

    let human = human_result.unwrap();
    assert_eq!(human.id, "generated-id");
    assert_eq!(human.name, "Han Solo");
    assert_eq!(human.appears_in.len(), 3);
    assert_eq!(human.home_planet, "Corellia");
}

#[test]
fn test_episode_enum() {
    // Test that Episode enum values can be created and compared
    let new_hope = Episode::NewHope;
    let empire = Episode::Empire;
    let jedi = Episode::Jedi;

    assert_ne!(new_hope, empire);
    assert_ne!(new_hope, jedi);
    assert_ne!(empire, jedi);
}

#[test]
fn test_human_creation() {
    // Test that Human struct can be created with valid values
    let human = Human {
        id: "1".to_string(),
        name: "Luke Skywalker".to_string(),
        appears_in: vec![Episode::NewHope, Episode::Empire, Episode::Jedi],
        home_planet: "Tatooine".to_string(),
    };

    assert_eq!(human.id, "1");
    assert_eq!(human.name, "Luke Skywalker");
    assert_eq!(human.appears_in.len(), 3);
    assert_eq!(human.home_planet, "Tatooine");
}

#[test]
fn test_new_human_creation() {
    // Test that NewHuman struct can be created with valid values
    let new_human = NewHuman {
        name: "Han Solo".to_string(),
        appears_in: vec![Episode::NewHope, Episode::Empire, Episode::Jedi],
        home_planet: "Corellia".to_string(),
    };

    assert_eq!(new_human.name, "Han Solo");
    assert_eq!(new_human.appears_in.len(), 3);
    assert_eq!(new_human.home_planet, "Corellia");
}

#[test]
fn test_api_version() {
    // Test the api_version query
    let version = Query::api_version();
    assert_eq!(version, "1.0");
}

#[test]
fn test_api_version_query() {
    // Test the api_version resolver
    let result = Query::api_version();
    assert_eq!(result, "1.0");
}

#[test]
fn lib_test_human_query() {
    // Test the human query using the test helper
    let result = test_human_query_helper("1".to_string());

    assert!(result.is_ok());
    let human = result.unwrap();
    assert_eq!(human.id, "1");
    assert_eq!(human.name, "Luke Skywalker");
    assert_eq!(human.home_planet, "Tatooine");
}

#[test]
fn schema_test_human_query() {
    // Test the human resolver using the test helper
    let result = test_human_query_helper("1".to_string());
    assert!(result.is_ok());

    let human = result.unwrap();
    assert_eq!(human.id, "1");
    assert_eq!(human.name, "Luke Skywalker");
}

#[test]
fn lib_test_create_human_mutation() {
    // Create a new human
    let new_human = NewHuman {
        name: "Han Solo".to_string(),
        appears_in: vec![Episode::NewHope, Episode::Empire, Episode::Jedi],
        home_planet: "Corellia".to_string(),
    };

    let mut bus = EventBus::new(100);
    let result = test_create_human_mutation_helper(new_human, &mut bus);

    assert!(result.is_ok());
    let human = result.unwrap();
    assert_eq!(human.id, "generated-id");
    assert_eq!(human.name, "Han Solo");
    assert_eq!(human.home_planet, "Corellia");
}

#[test]
fn schema_test_create_human_mutation() {
    let new_human = NewHuman {
        name: "Han Solo".to_string(),
        appears_in: vec![Episode::NewHope, Episode::Empire, Episode::Jedi],
        home_planet: "Corellia".to_string(),
    };

    let mut bus = EventBus::new(100);
    let result = test_create_human_mutation_helper(new_human, &mut bus);
    assert!(result.is_ok());

    let human = result.unwrap();
    assert_eq!(human.id, "generated-id");
    assert_eq!(human.name, "Han Solo");
    assert_eq!(human.home_planet, "Corellia");
}

#[test]
fn test_human_created_subscription() {
    let ctx = create_test_context();
    let mut bus = EventBus::new(100);

    // Get the subscription stream
    let mut ex = Subscription::human_created(&mut bus);

    // Create a new human to trigger the subscription
    let new_human = NewHuman {
        name: "Test Subscription".to_string(),
        appears_in: vec![Episode::NewHope],
        home_planet: "Test Planet".to_string(),
    };

    // Trigger the subscription by creating a human
    let created = Mutation::create_human(new_human, &ctx, &mut bus);
    assert!(created.is_ok());

    // Get the first item from the stream
    match ex.poll(&mut bus) {
        ExecutorPoll::Ready(ExecutionResult::Data(human)) => {
            assert_eq!(human.id, "generated-id");
            assert_eq!(human.name, "Test Subscription");
            assert_eq!(human.home_planet, "Test Planet");
        }
        _ => panic!("no subscription events received"),
    }
}
