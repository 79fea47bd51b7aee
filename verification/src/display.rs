//! What the user is shown: the greeting, and the lines for each reply.
use crate::session::{Reply, ReplyModel};
use vstd::prelude::*;
use vstd::string::StringExecFns;

verus! {

/// The lines that greet the user and name the commands.
pub open spec fn greeting() -> Seq<Seq<char>> {
    seq![
        "Welcome to Company System!"@,
        "plz enter order like (Add xxx to xxx,List xxx,List All,Quit)"@,
    ]
}

/// One line for each employee, marked with a dash.
pub open spec fn employee_lines(employees: Seq<Seq<char>>) -> Seq<Seq<char>> {
    Seq::new(employees.len(), |i: int| "- "@ + employees[i])
}

/// The lines for one department of a full listing: an empty line, the
/// department's name as a heading, and its employees.
pub open spec fn department_lines(department: (Seq<char>, Seq<Seq<char>>)) -> Seq<Seq<char>> {
    seq![""@, " ## "@ + department.0 + " ##"@] + employee_lines(department.1)
}

/// The lines for the departments of a full listing, one department after the other.
pub open spec fn listing_lines(departments: Seq<(Seq<char>, Seq<Seq<char>>)>) -> Seq<Seq<char>>
    decreases departments.len(),
{
    if departments.len() == 0 {
        Seq::empty()
    } else {
        listing_lines(departments.drop_last()) + department_lines(departments.last())
    }
}

/// The lines that show a reply.
pub open spec fn reply_lines(reply: ReplyModel) -> Seq<Seq<char>> {
    match reply {
        ReplyModel::Added { employee, department } => seq![
            "正在添加"@ + employee + "到"@ + department + "部门..."@,
            "添加成功！"@,
        ],
        ReplyModel::Listed { department, employees } => seq![department + "部门的员工列表:"@]
            + employee_lines(employees),
        ReplyModel::ListedAll { departments } => seq!["公司所有部门及员工列表："@] + listing_lines(
            departments,
        ),
        ReplyModel::DepartmentNotFound { department } => seq![
            department + "部门的员工列表:"@,
            "未找到'"@ + department + "'部门"@,
        ],
        ReplyModel::Farewell => seq!["Thanks,Bye!"@],
        ReplyModel::UnknownCommand { .. } => seq![
            "无效命令。有效格式: 'Add <name> to <department>', 'List <department>', 'List All', 'Quit'"@,
        ],
    }
}

/// The lines that greet the user at the start of a session.
pub fn welcome() -> (lines: Vec<String>)
    ensures
        lines.deep_view() == greeting(),
{
    let mut lines: Vec<String> = Vec::new();
    lines.push(String::from_str("Welcome to Company System!"));
    lines.push(String::from_str("plz enter order like (Add xxx to xxx,List xxx,List All,Quit)"));
    lines
}

/// Adds a line for each of `employees` at the end of `lines`.
fn push_employees(lines: &mut Vec<String>, employees: &Vec<String>)
    ensures
        final(lines).deep_view() == old(lines).deep_view() + employee_lines(employees.deep_view()),
{
    let ghost start = lines.deep_view();
    for i in 0..employees.len()
        invariant
            lines.deep_view() == start + employee_lines(employees.deep_view()).take(i as int),
    {
        let ghost before = lines.deep_view();
        let mut line = String::from_str("- ");
        line.append(employees[i].as_str());
        lines.push(line);
        assert(lines.deep_view() =~= before.push("- "@ + employees[i as int]@));
    }
}

/// The heading of a query for one department.
fn query_heading(department: &String) -> (line: String)
    ensures
        line@ == department@ + "部门的员工列表:"@,
{
    let mut line = department.clone();
    line.append("部门的员工列表:");
    line
}

/// The lines that show `reply` to the user.
pub fn render(reply: &Reply) -> (lines: Vec<String>)
    ensures
        lines.deep_view() == reply_lines(reply@),
{
    let mut lines: Vec<String> = Vec::new();
    match reply {
        Reply::Added { employee, department } => {
            let mut line = String::from_str("正在添加");
            line.append(employee.as_str());
            line.append("到");
            line.append(department.as_str());
            line.append("部门...");
            lines.push(line);
            lines.push(String::from_str("添加成功！"));
        },
        Reply::Listed { department, employees } => {
            lines.push(query_heading(department));
            push_employees(&mut lines, employees);
        },
        Reply::ListedAll { departments } => {
            lines.push(String::from_str("公司所有部门及员工列表："));
            let ghost head = lines.deep_view();
            let ghost shown = departments.deep_view();
            for i in 0..departments.len()
                invariant
                    shown == departments.deep_view(),
                    lines.deep_view() == head + listing_lines(shown.take(i as int)),
            {
                let ghost before = lines.deep_view();
                let mut heading = String::from_str(" ## ");
                heading.append(departments[i].0.as_str());
                heading.append(" ##");
                lines.push(String::from_str(""));
                lines.push(heading);
                push_employees(&mut lines, &departments[i].1);
                proof {
                    let next = shown.take(i + 1);
                    assert(next.drop_last() =~= shown.take(i as int));
                    assert(lines.deep_view() =~= before + department_lines(shown[i as int]));
                }
            }
            assert(shown.take(departments.len() as int) =~= shown);
        },
        Reply::DepartmentNotFound { department } => {
            let mut line = String::from_str("未找到'");
            line.append(department.as_str());
            line.append("'部门");
            lines.push(query_heading(department));
            lines.push(line);
        },
        Reply::Farewell => {
            lines.push(String::from_str("Thanks,Bye!"));
        },
        Reply::UnknownCommand { .. } => {
            lines.push(
                String::from_str(
                    "无效命令。有效格式: 'Add <name> to <department>', 'List <department>', 'List All', 'Quit'",
                ),
            );
        },
    }
    lines
}

} // verus!
