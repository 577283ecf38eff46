use rusqlite::Connection;
use tasklist::cli::{
    list_output, needs_argument, parse_command, render_list, run, same_text, task_to_string,
    Command,
};
use tasklist::order::{name_le, sort_tasks, task_le};
use tasklist::task::{create_table_if_not_exists, get_all, get_by_id, save, Task};
use tasklist::util::Config;

fn task(id: &str, name: &str, done: bool) -> Task {
    Task { id: id.to_owned(), name: name.to_owned(), done }
}

fn ids(tasks: &Vec<Task>) -> Vec<&str> {
    tasks.iter().map(|t| t.id.as_str()).collect()
}

fn open_config() -> Config {
    let conn = Connection::open_in_memory().expect("Failed to open connection in memory");
    create_table_if_not_exists(&conn).expect("Task table could not be created");
    Config { conn }
}

#[test]
fn line_of_an_open_task() {
    assert_eq!(task_to_string(&task("a1b2c3d4", "Buy milk", false)), "[ ] a1b2c3d4 Buy milk");
}

#[test]
fn line_of_a_done_task() {
    assert_eq!(task_to_string(&task("a1b2c3d4", "Buy milk", true)), "[X] a1b2c3d4 Buy milk");
}

#[test]
fn line_keeps_id_and_name_as_they_are() {
    assert_eq!(task_to_string(&task("", "", false)), "[ ]  ");
    assert_eq!(task_to_string(&task("id", "  two  words ", true)), "[X] id   two  words ");
    assert_eq!(task_to_string(&task("0000ffff", "Żółw ✓", false)), "[ ] 0000ffff Żółw ✓");
}

#[test]
fn listing_joins_lines_with_line_feeds() {
    assert_eq!(render_list(&vec![]), "");
    assert_eq!(render_list(&vec![task("aaaaaaaa", "Alpha", false)]), "[ ] aaaaaaaa Alpha");
    assert_eq!(
        render_list(&vec![
            task("bbbbbbbb", "Beta", true),
            task("aaaaaaaa", "Alpha", false),
            task("cccccccc", "", false),
        ]),
        "[X] bbbbbbbb Beta\n[ ] aaaaaaaa Alpha\n[ ] cccccccc "
    );
}

#[test]
fn open_banana_is_listed_before_done_apple() {
    let sorted = sort_tasks(vec![task("bbbbbbbb", "Banana", false), task("aaaaaaaa", "Apple", true)]);
    assert_eq!(ids(&sorted), vec!["bbbbbbbb", "aaaaaaaa"]);
    let sorted = sort_tasks(vec![task("aaaaaaaa", "Apple", true), task("bbbbbbbb", "Banana", false)]);
    assert_eq!(ids(&sorted), vec!["bbbbbbbb", "aaaaaaaa"]);
    assert_eq!((sorted[0].name.as_str(), sorted[0].done), ("Banana", false));
    assert_eq!((sorted[1].name.as_str(), sorted[1].done), ("Apple", true));
}

#[test]
fn stored_banana_and_apple_are_listed_in_that_order() {
    let config = open_config();
    save(task("bbbbbbbb", "Banana", false), &config.conn).unwrap();
    save(task("aaaaaaaa", "Apple", true), &config.conn).unwrap();
    let sorted = sort_tasks(get_all(&config.conn).unwrap());
    assert_eq!(ids(&sorted), vec!["bbbbbbbb", "aaaaaaaa"]);
    assert_eq!(
        list_output(get_all(&config.conn).unwrap()),
        "[ ] bbbbbbbb Banana\n[X] aaaaaaaa Apple"
    );
}

#[test]
fn tasks_sort_by_state_then_by_name() {
    let sorted = sort_tasks(vec![
        task("00000001", "pear", true),
        task("00000002", "fig", false),
        task("00000003", "apple", true),
        task("00000004", "plum", false),
        task("00000005", "kiwi", true),
        task("00000006", "date", false),
    ]);
    assert_eq!(
        ids(&sorted),
        vec!["00000006", "00000002", "00000004", "00000003", "00000005", "00000001"]
    );
}

#[test]
fn names_sort_by_their_bytes() {
    let sorted = sort_tasks(vec![
        task("00000001", "apple", false),
        task("00000002", "Zebra", false),
        task("00000003", "apples", false),
        task("00000004", "", false),
        task("00000005", "éclair", false),
        task("00000006", "app", false),
        task("00000007", "10", false),
        task("00000008", "9", false),
    ]);
    let names: Vec<&str> = sorted.iter().map(|t| t.name.as_str()).collect();
    assert_eq!(names, vec!["", "10", "9", "Zebra", "app", "apple", "apples", "éclair"]);
}

#[test]
fn tasks_with_the_same_key_keep_their_order() {
    let sorted = sort_tasks(vec![
        task("00000001", "same", true),
        task("00000002", "same", false),
        task("00000003", "same", true),
        task("00000004", "same", false),
        task("00000005", "other", true),
        task("00000006", "same", false),
    ]);
    assert_eq!(
        ids(&sorted),
        vec!["00000002", "00000004", "00000006", "00000005", "00000001", "00000003"]
    );
}

#[test]
fn sorting_agrees_with_the_standard_stable_sort() {
    let names = ["b", "a", "", "ab", "B", "a", "ż", "z", "b", "aa", "A", "~", "a b", "a"];
    let mut seed: u32 = 12345;
    for round in 0..40 {
        let mut input: Vec<Task> = Vec::new();
        for i in 0..(round % 9) * 2 {
            seed = seed.wrapping_mul(1664525).wrapping_add(1013904223);
            let name = names[(seed >> 16) as usize % names.len()];
            let done = (seed >> 8) & 1 == 1;
            input.push(task(&format!("{:08x}", i), name, done));
        }
        let mut expected: Vec<(bool, String, String)> =
            input.iter().map(|t| (t.done, t.name.clone(), t.id.clone())).collect();
        expected.sort_by_key(|t| (t.0, t.1.clone()));
        let sorted = sort_tasks(input);
        let got: Vec<(bool, String, String)> =
            sorted.iter().map(|t| (t.done, t.name.clone(), t.id.clone())).collect();
        assert_eq!(got, expected);
    }
}

#[test]
fn sorting_nothing_and_one_task() {
    assert!(sort_tasks(vec![]).is_empty());
    assert_eq!(ids(&sort_tasks(vec![task("00000001", "only", true)])), vec!["00000001"]);
    assert_eq!(list_output(vec![]), "");
}

#[test]
fn list_output_is_sorted_and_rendered() {
    assert_eq!(
        list_output(vec![
            task("cccccccc", "Walk dog", true),
            task("aaaaaaaa", "Buy milk", false),
            task("bbbbbbbb", "Answer mail", true),
            task("dddddddd", "Call mum", false),
        ]),
        "[ ] aaaaaaaa Buy milk\n[ ] dddddddd Call mum\n[X] bbbbbbbb Answer mail\n[X] cccccccc Walk dog"
    );
}

#[test]
fn names_compare_as_strings_do() {
    let names = ["", "a", "A", "ab", "abc", "b", "B", "é", "e", "z", "ż", "zz", "10", "9", " ", "日本"];
    for a in names {
        for b in names {
            assert_eq!(name_le(a, b), a <= b, "{:?} {:?}", a, b);
            assert_eq!(same_text(a, b), a == b, "{:?} {:?}", a, b);
        }
    }
}

#[test]
fn names_compare_by_code_point() {
    // One to four bytes in UTF-8: U+007F, U+0080, U+07FF, U+0800, U+D7FF, U+E000, U+FFFF,
    // U+10000, U+10FFFF.
    let symbols = [
        "\u{0}", "A", "\u{7f}", "\u{80}", "é", "\u{7ff}", "\u{800}", "日", "\u{d7ff}", "\u{e000}",
        "\u{ffff}", "\u{10000}", "🦀", "\u{10ffff}",
    ];
    let mut names: Vec<String> = vec![String::new()];
    for a in symbols {
        names.push(a.to_owned());
        for b in symbols {
            names.push(format!("{}{}", a, b));
            names.push(format!("x{}{}", a, b));
        }
    }
    for a in &names {
        for b in &names {
            let by_code_point = a.chars().map(u32::from).le(b.chars().map(u32::from));
            assert_eq!(name_le(a, b), by_code_point, "{:?} {:?}", a, b);
            assert_eq!(
                task_le(&task("1", a, true), &task("2", b, true)),
                by_code_point,
                "{:?} {:?}",
                a,
                b
            );
        }
    }
}

#[test]
fn open_tasks_go_before_done_ones() {
    assert!(task_le(&task("1", "z", false), &task("2", "a", true)));
    assert!(!task_le(&task("2", "a", true), &task("1", "z", false)));
    assert!(task_le(&task("1", "a", true), &task("2", "b", true)));
    assert!(!task_le(&task("1", "b", false), &task("2", "a", false)));
    assert!(task_le(&task("1", "a", false), &task("2", "a", false)));
    assert!(task_le(&task("2", "a", true), &task("1", "a", true)));
}

#[test]
fn subcommands_parse_to_their_commands() {
    assert!(matches!(parse_command(Some("add"), Some("Buy milk")), Command::Add { name } if name == "Buy milk"));
    assert!(matches!(parse_command(Some("del"), Some("a1b2c3d4")), Command::Del { id } if id == "a1b2c3d4"));
    assert!(matches!(parse_command(Some("do"), Some("a1b2c3d4")), Command::Do { id } if id == "a1b2c3d4"));
    assert!(matches!(parse_command(Some("undo"), Some("a1b2c3d4")), Command::Undo { id } if id == "a1b2c3d4"));
    assert!(matches!(parse_command(Some("list"), None), Command::List));
    assert!(matches!(parse_command(Some("list"), Some("extra")), Command::List));
}

#[test]
fn four_subcommands_work_on_an_argument() {
    for name in ["add", "del", "do", "undo"] {
        assert!(needs_argument(name), "{}", name);
    }
    for name in ["list", "", "ad", "adds", "Add", "DEL", "done", "und", "remove", " add"] {
        assert!(!needs_argument(name), "{:?}", name);
    }
}

#[test]
fn other_subcommands_are_invalid() {
    assert!(matches!(parse_command(None, None), Command::Invalid));
    assert!(matches!(parse_command(None, Some("x")), Command::Invalid));
    assert!(matches!(parse_command(Some("remove"), Some("x")), Command::Invalid));
    assert!(matches!(parse_command(Some("Add"), Some("x")), Command::Invalid));
    assert!(matches!(parse_command(Some("ad"), None), Command::Invalid));
    assert!(matches!(parse_command(Some(""), None), Command::Invalid));
    assert!(matches!(parse_command(Some("lists"), None), Command::Invalid));
    assert!(matches!(parse_command(Some("undone"), Some("x")), Command::Invalid));
}

#[test]
fn add_prints_the_new_id_and_stores_the_task() {
    let config = open_config();
    let id = run(&Command::Add { name: "Buy milk".to_owned() }, &config).unwrap();
    assert_eq!(id.len(), 8);
    assert!(id.chars().all(|c| matches!(c, '0'..='9' | 'a'..='f')));
    let found = get_by_id(&id, &config.conn).unwrap().unwrap();
    assert_eq!((found.name.as_str(), found.done), ("Buy milk", false));
}

#[test]
fn do_undo_and_del_print_the_given_id() {
    let config = open_config();
    let id = run(&Command::Add { name: "Buy milk".to_owned() }, &config).unwrap();
    assert_eq!(run(&Command::Do { id: id.clone() }, &config).unwrap(), id);
    assert_eq!(get_by_id(&id, &config.conn).unwrap().unwrap().done, true);
    assert_eq!(run(&Command::Undo { id: id.clone() }, &config).unwrap(), id);
    assert_eq!(get_by_id(&id, &config.conn).unwrap().unwrap().done, false);
    assert_eq!(run(&Command::Del { id: id.clone() }, &config).unwrap(), id);
    assert!(get_by_id(&id, &config.conn).unwrap().is_none());
    // An id that names no task is printed all the same.
    assert_eq!(run(&Command::Do { id: "nothing".to_owned() }, &config).unwrap(), "nothing");
    assert_eq!(run(&Command::Undo { id: "nothing".to_owned() }, &config).unwrap(), "nothing");
    assert_eq!(run(&Command::Del { id: "nothing".to_owned() }, &config).unwrap(), "nothing");
}

#[test]
fn list_prints_the_sorted_listing() {
    let config = open_config();
    assert_eq!(run(&Command::List, &config).unwrap(), "");
    save(task("bbbbbbbb", "Banana", false), &config.conn).unwrap();
    save(task("aaaaaaaa", "Apple", true), &config.conn).unwrap();
    save(task("cccccccc", "Avocado", false), &config.conn).unwrap();
    assert_eq!(
        run(&Command::List, &config).unwrap(),
        "[ ] cccccccc Avocado\n[ ] bbbbbbbb Banana\n[X] aaaaaaaa Apple"
    );
}

#[test]
fn invalid_command_prints_a_notice() {
    let config = open_config();
    assert_eq!(run(&Command::Invalid, &config).unwrap(), "Invalid subcommand");
    assert!(get_all(&config.conn).unwrap().is_empty());
}

#[test]
fn adding_a_taken_name_fails() {
    let config = open_config();
    run(&Command::Add { name: "Buy milk".to_owned() }, &config).unwrap();
    assert!(run(&Command::Add { name: "Buy milk".to_owned() }, &config).is_err());
    assert_eq!(get_all(&config.conn).unwrap().len(), 1);
}

#[test]
fn commands_fail_without_the_table() {
    let config = Config { conn: Connection::open_in_memory().unwrap() };
    assert!(run(&Command::Add { name: "x".to_owned() }, &config).is_err());
    assert!(run(&Command::Del { id: "x".to_owned() }, &config).is_err());
    assert!(run(&Command::Do { id: "x".to_owned() }, &config).is_err());
    assert!(run(&Command::Undo { id: "x".to_owned() }, &config).is_err());
    assert!(run(&Command::List, &config).is_err());
    assert_eq!(run(&Command::Invalid, &config).unwrap(), "Invalid subcommand");
}
