//! Help and manual pages, rendered from the command catalog.

use vstd::prelude::*;
use crate::report::padded;
use crate::runner::{debug_text, quoted};
use crate::text::{append, append_lit, chars_of, lemma_views_push, same, string_of, views};

verus! {

/// One command of the catalog: its name, a one-line summary, its argument
/// syntax, the manual text, examples, and how the Arch backend carries it out.
#[derive(Debug)]
pub struct Entry {
    pub name: String,
    pub summary: String,
    pub syntax: String,
    pub details: String,
    pub examples: Vec<String>,
    pub backend: String,
}

/// The text `str::to_uppercase` gives for `s` (Unicode case mapping).
pub uninterp spec fn upper_text(s: Seq<char>) -> Seq<char>;

/// `str::to_uppercase`: the Unicode uppercase form of a text. It depends on
/// the text alone; no clause spells the case mapping out.
#[verifier::external_body]
fn upper(s: &str) -> (r: String)
    ensures
        r@ == upper_text(s@),
{
    s.to_uppercase()
}

/// The position of the first entry with the given name.
pub open spec fn find(catalog: Seq<Entry>, name: Seq<char>) -> Option<int> {
    if exists|i: int| 0 <= i < catalog.len() && catalog[i].name@ == name {
        Some(choose|i: int| 0 <= i < catalog.len() && catalog[i].name@ == name && forall|j: int|
            0 <= j < i ==> catalog[j].name@ != name)
    } else {
        None
    }
}

/// The position of the first entry with the given name.
fn position(catalog: &Vec<Entry>, name: &str) -> (r: Option<usize>)
    ensures
        match r {
            Some(i) => i < catalog@.len() && catalog@[i as int].name@ == name@ && forall|j: int|
                0 <= j < i ==> catalog@[j].name@ != name@,
            None => forall|j: int| 0 <= j < catalog@.len() ==> catalog@[j].name@ != name@,
        },
{
    let n = chars_of(name);
    let mut i: usize = 0;
    while i < catalog.len()
        invariant
            n@ == name@,
            i <= catalog@.len(),
            forall|j: int| 0 <= j < i ==> catalog@[j].name@ != name@,
        decreases catalog.len() - i,
    {
        if same(chars_of(catalog[i].name.as_str()).as_slice(), n.as_slice()) {
            return Some(i);
        }
        i = i + 1;
    }
    None
}

proof fn lemma_find(catalog: Seq<Entry>, name: Seq<char>, i: int)
    requires
        0 <= i < catalog.len(),
        catalog[i].name@ == name,
        forall|j: int| 0 <= j < i ==> catalog[j].name@ != name,
    ensures
        find(catalog, name) == Some(i),
{
    let k = choose|k: int| 0 <= k < catalog.len() && catalog[k].name@ == name && forall|j: int|
        0 <= j < k ==> catalog[j].name@ != name;
    assert(0 <= k < catalog.len() && catalog[k].name@ == name && forall|j: int|
        0 <= j < k ==> catalog[j].name@ != name);
    if k < i {
        assert(catalog[k].name@ != name);
    }
    if i < k {
        assert(catalog[i].name@ != name);
    }
}

/// The manual page of one command.
pub open spec fn manual_page(e: Entry) -> Seq<Seq<char>> {
    seq![upper_text(e.name@) + "\n\n"@ + e.details@ + "\n\nПримеры:"@] + views(e.examples@).map_values(
        |x: Seq<char>| "    "@ + x,
    ) + if e.name@ != "delete"@ {
        seq!["\n--dry-run\n    Ничего не изменяет. Показывает будущие действия."@]
    } else {
        Seq::<Seq<char>>::empty()
    }
}

/// The help page of one command.
pub open spec fn help_page(e: Entry) -> Seq<Seq<char>> {
    seq![
        upper_text(e.name@) + " — "@ + e.summary@ + "\n\nUsage:\n  mono "@ + e.name@ + " "@ + e.syntax@
            + "\n\nExamples:"@,
    ] + views(e.examples@).map_values(|x: Seq<char>| "  "@ + x) + seq!["\nOptions:"@] + (if e.name@
        == "delete"@ {
        seq![
            "  --force       разрешить удаление непустого каталога\n  --permanent   удалить без корзины"@,
        ]
    } else {
        Seq::<Seq<char>>::empty()
    }) + seq!["  --dry-run     показать, что будет сделано\n\nMore:\n  mono manual "@ + e.name@]
}

/// The introduction of the manual.
pub open spec fn manual_intro() -> Seq<char> {
    "Mono управляет файлами, программами, службами и устройствами.\nmono <команда> [аргументы]\n\nmono help <команда> — краткая справка\nmono manual <команда> — поведение и ограничения\nmono <команда> [аргументы] --dry-run — предпросмотр без изменений\n\nУдаление по умолчанию использует корзину. Опасные действия требуют подтверждения.\nДоступность отдельных функций зависит от оборудования, прав и окружения.\n"@
}

/// The overview of all commands: a title, the manual's introduction in the
/// manual, one line per command, and where to read more.
pub open spec fn overview(catalog: Seq<Entry>, manual: bool) -> Seq<Seq<char>> {
    seq![
        "MONO — "@ + (if manual {
            "руководство"@
        } else {
            "команды"@
        }) + "\n"@,
    ] + (if manual {
        seq![manual_intro()]
    } else {
        Seq::<Seq<char>>::empty()
    }) + catalog.map_values(|e: Entry| "  "@ + padded(e.name@, 12) + " "@ + e.summary@) + seq![
        "\nПодробнее: mono "@ + (if manual {
            "manual"@
        } else {
            "help"@
        }) + " <команда>"@,
    ]
}

/// What `help` or `manual` prints: the overview, or the page of the named
/// command; a command without an entry is refused.
pub open spec fn help_text(catalog: Seq<Entry>, command: Option<Seq<char>>, manual: bool) -> Result<Seq<Seq<char>>, Seq<char>> {
    match command {
        None => Ok(overview(catalog, manual)),
        Some(c) => match find(catalog, c) {
            None => Err("В Mono нет руководства для "@ + debug_text(c) + ". Список команд: mono help"@),
            Some(i) => Ok(
                if manual {
                    manual_page(catalog[i])
                } else {
                    help_page(catalog[i])
                },
            ),
        },
    }
}

fn text(s: &str) -> (r: String)
    ensures
        r@ == s@,
{
    string_of(chars_of(s).as_slice())
}

/// Adds `prefix` followed by each example.
fn push_examples(out: &mut Vec<String>, examples: &Vec<String>, prefix: &str)
    ensures
        views(final(out)@) == views(old(out)@) + views(examples@).map_values(|x: Seq<char>| prefix@ + x),
{
    let ghost start = views(out@);
    let ghost lines = views(examples@).map_values(|x: Seq<char>| prefix@ + x);
    let mut i: usize = 0;
    assert(views(out@) =~= start + lines.take(0));
    while i < examples.len()
        invariant
            start == views(old(out)@),
            lines == views(examples@).map_values(|x: Seq<char>| prefix@ + x),
            i <= examples@.len(),
            views(out@) == start + lines.take(i as int),
        decreases examples.len() - i,
    {
        let mut m: Vec<char> = Vec::new();
        append_lit(&mut m, prefix);
        append(&mut m, chars_of(examples[i].as_str()).as_slice());
        let line = string_of(m.as_slice());
        proof {
            lemma_views_push(out@, line);
        }
        out.push(line);
        assert(lines.take(i + 1) =~= lines.take(i as int).push(lines[i as int]));
        i = i + 1;
    }
    assert(lines.take(examples@.len() as int) =~= lines);
}

fn is_delete(name: &String) -> (r: bool)
    ensures
        r == (name@ == "delete"@),
{
    crate::text::equals(chars_of(name.as_str()).as_slice(), "delete")
}

fn manual_lines(e: &Entry) -> (r: Vec<String>)
    ensures
        views(r@) == manual_page(*e),
{
    let mut out: Vec<String> = Vec::new();
    let mut m: Vec<char> = Vec::new();
    append(&mut m, chars_of(upper(e.name.as_str()).as_str()).as_slice());
    append_lit(&mut m, "\n\n");
    append(&mut m, chars_of(e.details.as_str()).as_slice());
    append_lit(&mut m, "\n\nПримеры:");
    let first = string_of(m.as_slice());
    out.push(first);
    assert(views(out@) =~= seq![first@]);
    push_examples(&mut out, &e.examples, "    ");
    if !is_delete(&e.name) {
        let last = text("\n--dry-run\n    Ничего не изменяет. Показывает будущие действия.");
        proof {
            lemma_views_push(out@, last);
        }
        out.push(last);
    }
    assert(views(out@) =~= manual_page(*e));
    out
}

fn help_lines_of(e: &Entry) -> (r: Vec<String>)
    ensures
        views(r@) == help_page(*e),
{
    let mut out: Vec<String> = Vec::new();
    let mut m: Vec<char> = Vec::new();
    append(&mut m, chars_of(upper(e.name.as_str()).as_str()).as_slice());
    append_lit(&mut m, " — ");
    append(&mut m, chars_of(e.summary.as_str()).as_slice());
    append_lit(&mut m, "\n\nUsage:\n  mono ");
    append(&mut m, chars_of(e.name.as_str()).as_slice());
    append_lit(&mut m, " ");
    append(&mut m, chars_of(e.syntax.as_str()).as_slice());
    append_lit(&mut m, "\n\nExamples:");
    let first = string_of(m.as_slice());
    out.push(first);
    assert(views(out@) =~= seq![first@]);
    push_examples(&mut out, &e.examples, "  ");
    let options = text("\nOptions:");
    proof {
        lemma_views_push(out@, options);
    }
    out.push(options);
    let ghost mid = views(out@);
    if is_delete(&e.name) {
        let d = text("  --force       разрешить удаление непустого каталога\n  --permanent   удалить без корзины");
        proof {
            lemma_views_push(out@, d);
        }
        out.push(d);
    }
    let mut t: Vec<char> = Vec::new();
    append_lit(&mut t, "  --dry-run     показать, что будет сделано\n\nMore:\n  mono manual ");
    append(&mut t, chars_of(e.name.as_str()).as_slice());
    let last = string_of(t.as_slice());
    proof {
        lemma_views_push(out@, last);
    }
    out.push(last);
    assert(views(out@) =~= help_page(*e));
    out
}

/// The overview of all commands.
fn overview_lines(catalog: &Vec<Entry>, manual: bool) -> (r: Vec<String>)
    ensures
        views(r@) == overview(catalog@, manual),
{
    let mut out: Vec<String> = Vec::new();
    let mut m: Vec<char> = Vec::new();
    append_lit(&mut m, "MONO — ");
    if manual {
        append_lit(&mut m, "руководство");
    } else {
        append_lit(&mut m, "команды");
    }
    append_lit(&mut m, "\n");
    let first = string_of(m.as_slice());
    out.push(first);
    assert(views(out@) =~= seq![first@]);
    if manual {
        let intro = text("Mono управляет файлами, программами, службами и устройствами.\nmono <команда> [аргументы]\n\nmono help <команда> — краткая справка\nmono manual <команда> — поведение и ограничения\nmono <команда> [аргументы] --dry-run — предпросмотр без изменений\n\nУдаление по умолчанию использует корзину. Опасные действия требуют подтверждения.\nДоступность отдельных функций зависит от оборудования, прав и окружения.\n");
        proof {
            lemma_views_push(out@, intro);
        }
        out.push(intro);
    }
    let ghost start = views(out@);
    let ghost rows = catalog@.map_values(|e: Entry| "  "@ + padded(e.name@, 12) + " "@ + e.summary@);
    let mut i: usize = 0;
    assert(views(out@) =~= start + rows.take(0));
    while i < catalog.len()
        invariant
            rows == catalog@.map_values(|e: Entry| "  "@ + padded(e.name@, 12) + " "@ + e.summary@),
            i <= catalog@.len(),
            views(out@) == start + rows.take(i as int),
        decreases catalog.len() - i,
    {
        let e = &catalog[i];
        let name = chars_of(e.name.as_str());
        let mut r: Vec<char> = Vec::new();
        append_lit(&mut r, "  ");
        append(&mut r, name.as_slice());
        let mut k: usize = name.len();
        while k < 12
            invariant
                name@ == e.name@,
                name@.len() <= k,
                k <= 12 || k == name@.len(),
                r@ == "  "@ + name@ + Seq::new((k - name@.len()) as nat, |j: int| ' '),
            decreases 12 - k,
        {
            r.push(' ');
            k = k + 1;
            assert(r@ =~= "  "@ + name@ + Seq::new((k - name@.len()) as nat, |j: int| ' '));
        }
        assert(r@ =~= "  "@ + padded(e.name@, 12)) by {
            if name@.len() >= 12 {
                assert(r@ =~= "  "@ + name@);
            }
        }
        append_lit(&mut r, " ");
        append(&mut r, chars_of(e.summary.as_str()).as_slice());
        let line = string_of(r.as_slice());
        proof {
            lemma_views_push(out@, line);
        }
        out.push(line);
        assert(rows.take(i + 1) =~= rows.take(i as int).push(rows[i as int]));
        i = i + 1;
    }
    assert(rows.take(catalog@.len() as int) =~= rows);
    let mut t: Vec<char> = Vec::new();
    append_lit(&mut t, "\nПодробнее: mono ");
    if manual {
        append_lit(&mut t, "manual");
    } else {
        append_lit(&mut t, "help");
    }
    append_lit(&mut t, " <команда>");
    let last = string_of(t.as_slice());
    proof {
        lemma_views_push(out@, last);
    }
    out.push(last);
    assert(views(out@) =~= overview(catalog@, manual));
    out
}

/// What `help` or `manual` prints, for the whole catalog or one command.
pub fn help(catalog: &Vec<Entry>, command: Option<&str>, manual: bool) -> (r: Result<Vec<String>, String>)
    ensures
        match r {
            Ok(lines) => help_text(
                catalog@,
                match command {
                    Some(c) => Some(c@),
                    None => None,
                },
                manual,
            ) == Ok::<Seq<Seq<char>>, Seq<char>>(views(lines@)),
            Err(e) => help_text(
                catalog@,
                match command {
                    Some(c) => Some(c@),
                    None => None,
                },
                manual,
            ) == Err::<Seq<Seq<char>>, Seq<char>>(e@),
        },
{
    match command {
        None => Ok(overview_lines(catalog, manual)),
        Some(c) => match position(catalog, c) {
            None => {
                let mut m: Vec<char> = Vec::new();
                append_lit(&mut m, "В Mono нет руководства для ");
                append(&mut m, chars_of(quoted(c).as_str()).as_slice());
                append_lit(&mut m, ". Список команд: mono help");
                Err(string_of(m.as_slice()))
            },
            Some(i) => {
                proof {
                    lemma_find(catalog@, c@, i as int);
                }
                if manual {
                    Ok(manual_lines(&catalog[i]))
                } else {
                    Ok(help_lines_of(&catalog[i]))
                }
            },
        },
    }
}

/// How the Arch backend carries out a command, or the refusal of an unknown one.
pub fn backend_manual(catalog: &Vec<Entry>, command: &str) -> (r: Result<String, String>)
    ensures
        match r {
            Ok(t) => find(catalog@, command@) matches Some(i) && t@ == "Arch Linux backend: "@
                + catalog@[i].name@ + "\n\n"@ + catalog@[i].backend@,
            Err(e) => find(catalog@, command@) is None && e@ == "Unknown Mono command: "@ + command@,
        },
{
    match position(catalog, command) {
        None => {
            let mut m: Vec<char> = Vec::new();
            append_lit(&mut m, "Unknown Mono command: ");
            append(&mut m, chars_of(command).as_slice());
            Err(string_of(m.as_slice()))
        },
        Some(i) => {
            proof {
                lemma_find(catalog@, command@, i as int);
            }
            let e = &catalog[i];
            let mut m: Vec<char> = Vec::new();
            append_lit(&mut m, "Arch Linux backend: ");
            append(&mut m, chars_of(e.name.as_str()).as_slice());
            append_lit(&mut m, "\n\n");
            append(&mut m, chars_of(e.backend.as_str()).as_slice());
            Ok(string_of(m.as_slice()))
        },
    }
}

} // verus!
