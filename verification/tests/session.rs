use rust_learn::command::Command;
use rust_learn::roster::RosterError;
use rust_learn::session::{ErrorKind, Reply, Session, SessionState};

fn names(list: &[&str]) -> Vec<String> {
    list.iter().map(|s| s.to_string()).collect()
}

#[test]
fn scenario_add_two_and_list_engineering() {
    let mut session = Session::new();
    assert_eq!(
        session.submit("Add Sally to Engineering"),
        Reply::Added { employee: "Sally".to_string(), department: "Engineering".to_string() }
    );
    assert_eq!(
        session.submit("Add Amir to Sales"),
        Reply::Added { employee: "Amir".to_string(), department: "Sales".to_string() }
    );
    assert_eq!(
        session.submit("List Engineering"),
        Reply::Listed { department: "Engineering".to_string(), employees: names(&["Sally"]) }
    );
    assert!(session.is_running());
}

#[test]
fn scenario_list_sales_sorted() {
    let mut session = Session::new();
    session.submit("Add Bob to Sales");
    session.submit("Add Amir to Sales");
    assert_eq!(
        session.submit("List Sales"),
        Reply::Listed { department: "Sales".to_string(), employees: names(&["Amir", "Bob"]) }
    );
}

#[test]
fn scenario_list_all_in_order_of_departments() {
    let mut session = Session::new();
    session.submit("Add Amir to Sales");
    session.submit("Add Sally to Engineering");
    assert_eq!(
        session.submit("List All"),
        Reply::ListedAll {
            departments: vec![
                ("Engineering".to_string(), names(&["Sally"])),
                ("Sales".to_string(), names(&["Amir"])),
            ]
        }
    );
}

#[test]
fn scenario_list_marketing_on_an_empty_store() {
    let mut session = Session::new();
    assert_eq!(
        session.submit("List Marketing"),
        Reply::DepartmentNotFound { department: "Marketing".to_string() }
    );
    assert!(session.is_running());
    assert_eq!(session.store().list_all(), Vec::<(String, Vec<String>)>::new());
}

#[test]
fn scenario_quit_as_first_input() {
    let mut session = Session::new();
    assert!(session.is_running());
    assert_eq!(session.submit("Quit"), Reply::Farewell);
    assert!(!session.is_running());
}

#[test]
fn an_unknown_command_is_reported_and_the_session_goes_on() {
    let mut session = Session::new();
    assert_eq!(
        session.submit("Remove Sally from Sales"),
        Reply::UnknownCommand { raw_tokens: names(&["Remove", "Sally", "from", "Sales"]) }
    );
    assert_eq!(session.submit(""), Reply::UnknownCommand { raw_tokens: Vec::new() });
    assert!(session.is_running());
    assert_eq!(session.store().list_all(), Vec::<(String, Vec<String>)>::new());
}

#[test]
fn only_add_changes_the_roster() {
    let mut session = Session::new();
    session.submit("Add Sally to Engineering");
    let before = session.store().list_all();
    session.submit("List Engineering");
    session.submit("List Nowhere");
    session.submit("List All");
    session.submit("What");
    assert_eq!(session.store().list_all(), before);
    session.submit("Quit");
    assert_eq!(session.store().list_all(), before);
}

#[test]
fn execute_carries_out_commands_that_were_built_by_hand() {
    let mut session = Session::new();
    assert_eq!(
        session.execute(Command::Add {
            employee: "Amir".to_string(),
            department: "List All".to_string()
        }),
        Reply::Added { employee: "Amir".to_string(), department: "List All".to_string() }
    );
    assert_eq!(session.store().list("List All"), Ok(names(&["Amir"])));
    assert_eq!(session.store().list("List"), Err(RosterError::DepartmentNotFound));
    assert_eq!(
        session.execute(Command::ListOne { department: "All".to_string() }),
        Reply::DepartmentNotFound { department: "All".to_string() }
    );
    assert_eq!(
        session.execute(Command::Invalid { raw_tokens: names(&["x"]) }),
        Reply::UnknownCommand { raw_tokens: names(&["x"]) }
    );
    assert_eq!(session.execute(Command::Quit), Reply::Farewell);
    assert!(!session.is_running());
}

#[test]
fn session_states_are_told_apart() {
    assert_ne!(SessionState::Running, SessionState::Terminated);
}

#[test]
fn only_a_failure_to_read_is_fatal() {
    assert!(ErrorKind::InputReadFailure.is_fatal());
    assert!(!ErrorKind::UnknownCommand.is_fatal());
    assert!(!ErrorKind::DepartmentNotFound.is_fatal());
}

#[test]
fn replies_report_the_errors_that_the_user_is_told_of() {
    let mut session = Session::new();
    assert_eq!(session.submit("Add Amir to Sales").error(), None);
    assert_eq!(session.submit("List Sales").error(), None);
    assert_eq!(session.submit("List All").error(), None);
    assert_eq!(session.submit("List Marketing").error(), Some(ErrorKind::DepartmentNotFound));
    assert_eq!(session.submit("Lisst Sales").error(), Some(ErrorKind::UnknownCommand));
    assert!(session.is_running());
    assert_eq!(session.submit("Quit").error(), None);
}
