use rust_learn::display::{render, welcome};
use rust_learn::session::{Reply, Session};

fn lines(list: &[&str]) -> Vec<String> {
    list.iter().map(|s| s.to_string()).collect()
}

#[test]
fn welcome_greets_and_names_the_commands() {
    assert_eq!(
        welcome(),
        lines(&[
            "Welcome to Company System!",
            "plz enter order like (Add xxx to xxx,List xxx,List All,Quit)",
        ])
    );
}

#[test]
fn render_shows_an_addition_in_two_lines() {
    let reply = Reply::Added { employee: "Sally".to_string(), department: "Engineering".to_string() };
    assert_eq!(render(&reply), lines(&["正在添加Sally到Engineering部门...", "添加成功！"]));
}

#[test]
fn render_shows_the_employees_of_a_department_under_a_heading() {
    let reply = Reply::Listed { department: "Sales".to_string(), employees: lines(&["Amir", "Bob"]) };
    assert_eq!(render(&reply), lines(&["Sales部门的员工列表:", "- Amir", "- Bob"]));
}

#[test]
fn render_shows_every_department_with_its_employees() {
    let reply = Reply::ListedAll {
        departments: vec![
            ("Engineering".to_string(), lines(&["Sally"])),
            ("Sales".to_string(), lines(&["Amir", "Bob"])),
        ],
    };
    assert_eq!(
        render(&reply),
        lines(&[
            "公司所有部门及员工列表：",
            "",
            " ## Engineering ##",
            "- Sally",
            "",
            " ## Sales ##",
            "- Amir",
            "- Bob",
        ])
    );
    assert_eq!(
        render(&Reply::ListedAll { departments: Vec::new() }),
        lines(&["公司所有部门及员工列表："])
    );
}

#[test]
fn render_says_that_a_department_was_not_found() {
    let reply = Reply::DepartmentNotFound { department: "Marketing".to_string() };
    assert_eq!(render(&reply), lines(&["Marketing部门的员工列表:", "未找到'Marketing'部门"]));
}

#[test]
fn render_says_farewell() {
    assert_eq!(render(&Reply::Farewell), lines(&["Thanks,Bye!"]));
}

#[test]
fn render_gives_the_usage_for_an_unknown_command() {
    let reply = Reply::UnknownCommand { raw_tokens: lines(&["Hello"]) };
    assert_eq!(
        render(&reply),
        lines(&[
            "无效命令。有效格式: 'Add <name> to <department>', 'List <department>', 'List All', 'Quit'"
        ])
    );
}

#[test]
fn a_whole_conversation_reads_as_expected() {
    let mut session = Session::new();
    let mut shown = welcome();
    for line in ["Add Bob to Sales", "Add Amir to Sales", "List Sales", "Lisst", "Quit"] {
        let reply = session.submit(line);
        shown.extend(render(&reply));
    }
    assert_eq!(
        shown,
        lines(&[
            "Welcome to Company System!",
            "plz enter order like (Add xxx to xxx,List xxx,List All,Quit)",
            "正在添加Bob到Sales部门...",
            "添加成功！",
            "正在添加Amir到Sales部门...",
            "添加成功！",
            "Sales部门的员工列表:",
            "- Amir",
            "- Bob",
            "无效命令。有效格式: 'Add <name> to <department>', 'List <department>', 'List All', 'Quit'",
            "Thanks,Bye!",
        ])
    );
    assert!(!session.is_running());
}
