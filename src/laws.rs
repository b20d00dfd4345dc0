use vstd::prelude::*;

use crate::cliply::{
    flag_line, flag_used, short_form, help_flag_line, help_lines, is_first_index,
    join_lines, lemma_first_index_unique, matched_token, missing_data_message, version_flag_line,
    App, EntryView,
};

verus! {

/// The number of newline characters in `s`.
pub open spec fn newline_count(s: Seq<char>) -> nat
    decreases s.len(),
{
    if s.len() == 0 {
        0
    } else {
        newline_count(s.drop_last()) + if s.last() == '\n' {
            1nat
        } else {
            0nat
        }
    }
}

/// Newlines of a concatenation are those of its parts.
pub proof fn lemma_newline_count_add(a: Seq<char>, b: Seq<char>)
    ensures
        newline_count(a + b) == newline_count(a) + newline_count(b),
    decreases b.len(),
{
    if b.len() == 0 {
        assert(a + b =~= a);
    } else {
        assert((a + b).drop_last() =~= a + b.drop_last());
        lemma_newline_count_add(a, b.drop_last());
    }
}

/// A text without a newline character counts none.
pub proof fn lemma_newline_count_none(s: Seq<char>)
    requires
        !s.contains('\n'),
    ensures
        newline_count(s) == 0,
    decreases s.len(),
{
    if s.len() > 0 {
        assert(s.last() == s[s.len() - 1]);
        assert(!s.drop_last().contains('\n')) by {
            if s.drop_last().contains('\n') {
                let k = choose|k: int| 0 <= k < s.drop_last().len() && s.drop_last()[k] == '\n';
                assert(s[k] == '\n');
            }
        }
        lemma_newline_count_none(s.drop_last());
    }
}

/// Two texts without a newline character concatenate to one without.
proof fn lemma_no_newline_add(a: Seq<char>, b: Seq<char>)
    requires
        !a.contains('\n'),
        !b.contains('\n'),
    ensures
        !(a + b).contains('\n'),
{
    if (a + b).contains('\n') {
        let k = choose|k: int| 0 <= k < (a + b).len() && (a + b)[k] == '\n';
        if k < a.len() {
            assert(a[k] == '\n');
        } else {
            assert(b[k - a.len()] == '\n');
        }
    }
}

/// The help line of a flag whose name and help text hold no newline holds none.
proof fn lemma_flag_line_single(e: EntryView)
    requires
        !e.0.contains('\n'),
        !e.1.contains('\n'),
    ensures
        !flag_line(e).contains('\n'),
{
    reveal_strlit(" --");
    reveal_strlit(" ");
    reveal_strlit(" DATA  ");
    reveal_strlit("        ");
    let short = short_form(e.0);
    if e.0.len() > 0 {
        assert(e.0[0] != '\n');
    }
    assert(!short.contains('\n'));
    let pad = if e.2 {
        " DATA  "@
    } else {
        "        "@
    };
    assert(!" --"@.contains('\n'));
    assert(!" "@.contains('\n'));
    assert(!pad.contains('\n'));
    lemma_no_newline_add(short, " --"@);
    lemma_no_newline_add(short + " --"@, e.0);
    lemma_no_newline_add(short + " --"@ + e.0, " "@);
    lemma_no_newline_add(short + " --"@ + e.0 + " "@, e.0);
    lemma_no_newline_add(short + " --"@ + e.0 + " "@ + e.0, pad);
    lemma_no_newline_add(short + " --"@ + e.0 + " "@ + e.0 + pad, e.1);
}

/// Lines without newline characters, joined, hold one newline fewer than
/// there are lines.
pub proof fn lemma_join_newlines(lines: Seq<Seq<char>>)
    requires
        lines.len() > 0,
        forall|i: int| 0 <= i < lines.len() ==> !(#[trigger] lines[i]).contains('\n'),
    ensures
        newline_count(join_lines(lines)) + 1 == lines.len(),
    decreases lines.len(),
{
    if lines.len() == 1 {
        lemma_newline_count_none(lines[0]);
    } else {
        let rest = lines.drop_last();
        assert forall|i: int| 0 <= i < rest.len() implies !(#[trigger] rest[i]).contains('\n') by {
            assert(rest[i] == lines[i]);
        }
        lemma_join_newlines(rest);
        reveal_strlit("\n");
        assert(newline_count("\n"@) == 1) by {
            reveal_strlit("\n");
            assert("\n"@.len() == 1 && "\n"@.last() == '\n');
            assert("\n"@.drop_last() =~= Seq::<char>::empty());
            assert(newline_count(Seq::<char>::empty()) == 0);
        }
        lemma_newline_count_none(lines.last());
        lemma_newline_count_add(join_lines(rest), "\n"@);
        lemma_newline_count_add(join_lines(rest) + "\n"@, lines.last());
    }
}

/// The usage text holds one line per registered flag, in registration
/// order, and then exactly the two built-in lines of `help` and `version`;
/// where no flag name or help text holds a newline, the text has exactly
/// that many lines.
pub proof fn lemma_help_layout(app: App)
    ensures
        help_lines(app.entries()).len() == app.entries().len() + 2,
        forall|i: int|
            0 <= i < app.entries().len() ==> help_lines(app.entries())[i] == flag_line(
                app.entries()[i],
            ),
        help_lines(app.entries())[app.entries().len() as int] == help_flag_line(),
        help_lines(app.entries())[app.entries().len() + 1int] == version_flag_line(),
        (forall|i: int|
            0 <= i < app.entries().len() ==> !(#[trigger] app.entries()[i]).0.contains('\n')
                && !app.entries()[i].1.contains('\n')) ==> newline_count(
            join_lines(help_lines(app.entries())),
        ) == app.entries().len() + 1,
{
    let entries = app.entries();
    let lines = help_lines(entries);
    if forall|i: int|
        0 <= i < entries.len() ==> !(#[trigger] entries[i]).0.contains('\n')
            && !entries[i].1.contains('\n') {
        reveal_strlit("-h --help help           displays this message");
        reveal_strlit("-v --version version     displays app info");
        assert forall|i: int| 0 <= i < lines.len() implies !(#[trigger] lines[i]).contains('\n') by {
            if i < entries.len() {
                lemma_flag_line_single(entries[i]);
            }
        }
        lemma_join_newlines(lines);
    }
}

/// A flag that takes a value and was given with a token after the first
/// occurrence of its matched spelling has exactly that token as its value.
pub proof fn lemma_value_is_next_token(app: App, argv: Seq<Seq<char>>, n: Seq<char>, t: Seq<char>, i: int)
    requires
        app.accepts_data(n),
        matched_token(argv, n) == Some(t),
        is_first_index(argv, t, i),
        i + 1 < argv.len(),
    ensures
        app.arg_data(argv, n) == Ok::<Seq<char>, Seq<char>>(argv[i + 1]),
{
    lemma_first_index_unique(argv, t, i);
}

/// A flag that takes a value and whose matched spelling first occurs as the
/// last token fails with the missing-data error.
pub proof fn lemma_last_token_missing_data(app: App, argv: Seq<Seq<char>>, n: Seq<char>, t: Seq<char>)
    requires
        app.accepts_data(n),
        matched_token(argv, n) == Some(t),
        argv.len() > 0,
        is_first_index(argv, t, argv.len() - 1),
    ensures
        app.arg_data(argv, n) == Err::<Seq<char>, Seq<char>>(missing_data_message(t)),
{
    lemma_first_index_unique(argv, t, argv.len() - 1);
}

/// A flag given in none of its spellings has the empty value, never an error.
pub proof fn lemma_unused_flag_is_empty(app: App, argv: Seq<Seq<char>>, n: Seq<char>)
    requires
        !flag_used(argv, n),
    ensures
        app.arg_data(argv, n) == Ok::<Seq<char>, Seq<char>>(Seq::empty()),
{
}

} // verus!
