use monux::help::{backend_manual, help, Entry};

fn catalog() -> Vec<Entry> {
    vec![
        Entry {
            name: "delete".to_string(),
            summary: "удалить объект".to_string(),
            syntax: "<target> [--force] [--permanent]".to_string(),
            details: "Перемещает объект в корзину.".to_string(),
            examples: vec!["mono delete notes.txt".to_string()],
            backend: "gio trash; rm with --permanent".to_string(),
        },
        Entry {
            name: "ping".to_string(),
            summary: "проверить узел".to_string(),
            syntax: "<host>".to_string(),
            details: "Четыре запроса ICMP.".to_string(),
            examples: vec!["mono ping archlinux.org".to_string(), "mono ping 1.1.1.1".to_string()],
            backend: "ping -c 4".to_string(),
        },
    ]
}

#[test]
fn overview_lists_every_command() {
    let lines = help(&catalog(), None, false).unwrap();
    assert_eq!(
        lines,
        vec![
            "MONO — команды\n",
            "  delete       удалить объект",
            "  ping         проверить узел",
            "\nПодробнее: mono help <команда>",
        ]
    );
    let manual = help(&catalog(), None, true).unwrap();
    assert_eq!(manual[0], "MONO — руководство\n");
    assert!(manual[1].starts_with("Mono управляет файлами"));
    assert_eq!(manual[4], "\nПодробнее: mono manual <команда>");
}

#[test]
fn help_page_of_delete_lists_its_options() {
    let lines = help(&catalog(), Some("delete"), false).unwrap();
    assert_eq!(
        lines,
        vec![
            "DELETE — удалить объект\n\nUsage:\n  mono delete <target> [--force] [--permanent]\n\nExamples:",
            "  mono delete notes.txt",
            "\nOptions:",
            "  --force       разрешить удаление непустого каталога\n  --permanent   удалить без корзины",
            "  --dry-run     показать, что будет сделано\n\nMore:\n  mono manual delete",
        ]
    );
}

#[test]
fn manual_page_mentions_dry_run_except_for_delete() {
    let lines = help(&catalog(), Some("ping"), true).unwrap();
    assert_eq!(
        lines,
        vec![
            "PING\n\nЧетыре запроса ICMP.\n\nПримеры:",
            "    mono ping archlinux.org",
            "    mono ping 1.1.1.1",
            "\n--dry-run\n    Ничего не изменяет. Показывает будущие действия.",
        ]
    );
    let delete = help(&catalog(), Some("delete"), true).unwrap();
    assert_eq!(delete.len(), 2);
}

#[test]
fn unknown_commands_have_no_help() {
    assert_eq!(
        help(&catalog(), Some("fly"), false).unwrap_err(),
        "В Mono нет руководства для \"fly\". Список команд: mono help"
    );
    assert_eq!(
        backend_manual(&catalog(), "fly").unwrap_err(),
        "Unknown Mono command: fly"
    );
    assert_eq!(
        backend_manual(&catalog(), "ping").unwrap(),
        "Arch Linux backend: ping\n\nping -c 4"
    );
}
