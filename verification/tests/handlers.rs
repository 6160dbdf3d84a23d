use tasklist::http::{create_task, delete_task, get_tasks, update_task, welcome};
use tasklist::repo::TaskRepo;

fn preloaded_one() -> TaskRepo {
    let mut repo = TaskRepo::new();
    create_task(&mut repo, "Task 1".to_string());
    repo
}

#[test]
fn test_get_tasks_empty() {
    let repo = TaskRepo::new();

    let resp = get_tasks(&repo);
    assert!(resp.status == 200);

    let tasks: serde_json::Value = serde_json::from_str(&resp.body).unwrap();
    assert_eq!(tasks.as_array().unwrap().len(), 0);
}

#[test]
fn test_create_task() {
    let mut repo = TaskRepo::new();

    let resp = create_task(&mut repo, "Test Task".to_string());
    assert!(resp.status == 200);

    let task: serde_json::Value = serde_json::from_str(&resp.body).unwrap();
    assert_eq!(task["id"], serde_json::Value::from(1));
    assert_eq!(task["title"], serde_json::Value::from("Test Task"));

    let tasks = repo.list();
    assert_eq!(tasks.len(), 1);
    assert_eq!(tasks[0].id, 1);
    assert_eq!(tasks[0].title, "Test Task");
}

#[test]
fn test_get_tasks_with_data() {
    let mut repo = TaskRepo::new();
    create_task(&mut repo, "Task 1".to_string());
    create_task(&mut repo, "Task 2".to_string());

    let resp = get_tasks(&repo);
    assert!(resp.status == 200);

    let tasks: serde_json::Value = serde_json::from_str(&resp.body).unwrap();
    let arr = tasks.as_array().unwrap();
    assert_eq!(arr.len(), 2);
    assert_eq!(arr[0]["id"], serde_json::Value::from(1));
    assert_eq!(arr[0]["title"], serde_json::Value::from("Task 1"));
    assert_eq!(arr[1]["id"], serde_json::Value::from(2));
    assert_eq!(arr[1]["title"], serde_json::Value::from("Task 2"));
}

#[test]
fn test_update_task() {
    let mut repo = preloaded_one();

    let resp = update_task(&mut repo, 1, "Updated Task".to_string());
    assert!(resp.status == 200);

    let task: serde_json::Value = serde_json::from_str(&resp.body).unwrap();
    assert_eq!(task["id"], serde_json::Value::from(1));
    assert_eq!(task["title"], serde_json::Value::from("Updated Task"));

    let tasks = repo.list();
    assert_eq!(tasks.len(), 1);
    assert_eq!(tasks[0].id, 1);
    assert_eq!(tasks[0].title, "Updated Task");
}

#[test]
fn test_update_task_not_found() {
    let mut repo = preloaded_one();

    let resp = update_task(&mut repo, 999, "Updated Task".to_string());
    assert_eq!(resp.status, 404);
    assert_eq!(resp.body, "Task not found");

    let tasks = repo.list();
    assert_eq!(tasks.len(), 1);
    assert_eq!(tasks[0].title, "Task 1");
}

#[test]
fn test_delete_task() {
    let mut repo = preloaded_one();

    let resp = delete_task(&mut repo, 1);
    assert!(resp.status == 200);
    assert_eq!(resp.body, "Task deleted");

    let tasks = repo.list();
    assert_eq!(tasks.len(), 0);
}

#[test]
fn test_delete_task_not_found() {
    let mut repo = preloaded_one();

    let resp = delete_task(&mut repo, 999);
    assert_eq!(resp.status, 404);
    assert_eq!(resp.body, "Task not found");
}

#[test]
fn test_welcome() {
    let resp = welcome();
    assert!(resp.status == 200);
    assert!(resp.body.contains("I'm up and running!"));
}

#[test]
fn get_tasks_empty_exact_body() {
    let repo = TaskRepo::new();
    let resp = get_tasks(&repo);
    assert_eq!(resp.status, 200);
    assert_eq!(resp.body, "[]");
}

#[test]
fn create_then_get_exact_bodies() {
    let mut repo = TaskRepo::new();
    let created = create_task(&mut repo, "Test Task".to_string());
    assert_eq!(created.status, 200);
    assert_eq!(created.body, "{\"id\":1,\"title\":\"Test Task\"}");

    let listed = get_tasks(&repo);
    assert_eq!(listed.status, 200);
    assert_eq!(listed.body, "[{\"id\":1,\"title\":\"Test Task\"}]");
}

#[test]
fn update_then_repository_shows_only_new_title() {
    let mut repo = preloaded_one();
    let resp = update_task(&mut repo, 1, "Updated Task".to_string());
    assert_eq!(resp.status, 200);
    assert_eq!(resp.body, "{\"id\":1,\"title\":\"Updated Task\"}");
    assert_eq!(get_tasks(&repo).body, "[{\"id\":1,\"title\":\"Updated Task\"}]");
}

#[test]
fn delete_twice_succeeds_then_not_found() {
    let mut repo = preloaded_one();

    let first = delete_task(&mut repo, 1);
    assert_eq!(first.status, 200);
    assert_eq!(first.body, "Task deleted");
    assert_eq!(get_tasks(&repo).body, "[]");

    let second = delete_task(&mut repo, 1);
    assert_eq!(second.status, 404);
    assert_eq!(second.body, "Task not found");
}
