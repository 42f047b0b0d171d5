//! Text formatting for the dashboard: memory sizes, abbreviated directories,
//! display widths and the padded columns of the session table.
use vstd::prelude::*;

use crate::paths::{path_file_name, path_file_name_spec, path_parent, path_parent_spec};
use crate::session::SavedSession;
use crate::text::{
    append_str, chars_of, copy_str, decimal, push_char, push_repeated, sat_sub, spaces, str_eq,
    string_views, u64_to_string,
};

verus! {

/// The widths of the padded columns of the session table.
#[derive(Debug, Clone, Copy, PartialEq, Eq)]
pub struct ColumnWidths {
    pub id: usize,
    pub name: usize,
    pub status: usize,
    pub memory: usize,
}

/// The number of terminal columns that a string takes, as the `unicode-width`
/// crate measures it.
pub uninterp spec fn display_width_spec(text: Seq<char>) -> nat;

/// Whether every character of `text` is printable ASCII (a space up to `~`).
pub open spec fn is_printable_ascii(text: Seq<char>) -> bool {
    forall|i: int| 0 <= i < text.len() ==> ' ' <= #[trigger] text[i] <= '~'
}

/// Calls `unicode_width::UnicodeWidthStr::width` on `text`; the result is the
/// name above applied to the text. The crate gives each printable ASCII
/// character width one, and a text without the sequences that its rules list
/// the sum of its characters' widths, so printable ASCII is as wide as it is
/// long. How wide other characters and sequences are (Unicode Standard Annex
/// #11 and the crate's own rules) is not stated.
#[verifier::external_body]
pub fn display_width(text: &str) -> (w: usize)
    ensures
        w as nat == display_width_spec(text@),
        is_printable_ascii(text@) ==> w == text@.len(),
{
    unicode_width::UnicodeWidthStr::width(text)
}

/// A memory size in whole mebibytes followed by ` MiB`.
pub open spec fn format_memory_spec(bytes: u64) -> Seq<char> {
    if bytes == 0 {
        "0 MiB"@
    } else {
        decimal((bytes / 1024 / 1024) as nat) + " MiB"@
    }
}

/// A memory size in whole mebibytes followed by ` MiB`.
pub fn format_memory(bytes: u64) -> (s: String)
    ensures
        s@ == format_memory_spec(bytes),
{
    if bytes == 0 {
        return copy_str("0 MiB");
    }
    let mut s = u64_to_string(bytes / 1024 / 1024);
    append_str(&mut s, " MiB");
    s
}

/// The memory text counts whole mebibytes: for a size of at least `n` and
/// under `n + 1` mebibytes (of 2^20 bytes), it is the decimal form of `n`
/// followed by ` MiB`; 548405248 bytes read `523 MiB`.
pub proof fn law_memory_text_counts_whole_mebibytes(bytes: u64, n: nat)
    requires
        n * 1048576 <= bytes < (n + 1) * 1048576,
    ensures
        format_memory_spec(bytes) == decimal(n) + " MiB"@,
{
    vstd::arithmetic::div_mod::lemma_div_denominator(bytes as int, 1024, 1024);
    vstd::arithmetic::div_mod::lemma_fundamental_div_mod_converse(
        bytes as int,
        1048576,
        n as int,
        bytes - n * 1048576,
    );
    if bytes == 0 {
        assert(n == 0) by (nonlinear_arith)
            requires
                n * 1048576 <= bytes,
                bytes == 0,
        ;
        assert(decimal(0) =~= seq!['0']);
        reveal_strlit("0 MiB");
        reveal_strlit(" MiB");
        assert("0 MiB"@ =~= seq!['0'] + " MiB"@);
    }
}

/// The directory of a session as the dashboard shows it: when its last
/// component is the session's name, the parent followed by `/…` (or `/…`
/// alone under the root, or `./…` without a parent), and the full directory
/// otherwise.
pub open spec fn abbreviate_directory_spec(name: Seq<char>, directory: Seq<char>) -> Seq<char> {
    match path_file_name_spec(directory) {
        None => directory,
        Some(base) => if base != name {
            directory
        } else {
            let prefix = match path_parent_spec(directory) {
                Some(p) => if p.len() > 0 {
                    p
                } else {
                    "."@
                },
                None => "."@,
            };
            if prefix == "/"@ {
                "/…"@
            } else {
                prefix + "/…"@
            }
        },
    }
}

/// A directory named after its session is shown as its parent followed by
/// `/…`: the text always ends in `/…`, starts with the parent directory (with
/// `.` for a directory that has none, and only `/…` under the root), and so
/// never reads as the parent itself or as any other full path. Any other
/// directory is shown in full.
pub proof fn law_directory_named_after_session_is_abbreviated(name: Seq<char>, directory: Seq<char>)
    ensures
        path_file_name_spec(directory) == Some(name) ==> {
            let shown = abbreviate_directory_spec(name, directory);
            let parent = match path_parent_spec(directory) {
                Some(p) => if p.len() > 0 {
                    p
                } else {
                    "."@
                },
                None => "."@,
            };
            &&& shown.len() >= 2
            &&& shown[shown.len() - 2] == '/'
            &&& shown.last() == '…'
            &&& parent != "/"@ ==> shown.take(parent.len() as int) == parent && shown.len()
                == parent.len() + 2
            &&& parent == "/"@ ==> shown == seq!['/', '…']
        },
        path_file_name_spec(directory) != Some(name) ==> abbreviate_directory_spec(name, directory)
            == directory,
{
    reveal_strlit("/…");
    reveal_strlit(".");
    reveal_strlit("/");
    if path_file_name_spec(directory) == Some(name) {
        let shown = abbreviate_directory_spec(name, directory);
        let parent = match path_parent_spec(directory) {
            Some(p) => if p.len() > 0 {
                p
            } else {
                "."@
            },
            None => "."@,
        };
        if parent != "/"@ {
            assert(shown == parent + "/…"@);
            assert(shown.take(parent.len() as int) =~= parent);
        } else {
            assert(shown =~= seq!['/', '…']);
        }
    }
}

/// The directory of a saved session as the dashboard shows it.
pub fn abbreviate_directory(saved_session: &SavedSession) -> (s: String)
    ensures
        s@ == abbreviate_directory_spec(saved_session.name@, saved_session.directory@),
{
    let directory = saved_session.directory.as_str();
    let basename = match path_file_name(directory) {
        Some(b) => b,
        None => return copy_str(directory),
    };
    if !str_eq(basename.as_str(), saved_session.name.as_str()) {
        return copy_str(directory);
    }
    let prefix = match path_parent(directory) {
        Some(p) => {
            if p.as_str().is_empty() {
                copy_str(".")
            } else {
                p
            }
        },
        None => copy_str("."),
    };
    if str_eq(prefix.as_str(), "/") {
        copy_str("/…")
    } else {
        let mut s = prefix;
        append_str(&mut s, "/…");
        s
    }
}

/// `text` followed by as many spaces as bring its display width to `width`.
pub open spec fn pad_display_spec(text: Seq<char>, width: nat) -> Seq<char> {
    text + spaces(sat_sub(width, display_width_spec(text)))
}

/// `text` followed by as many spaces as bring its display width to
/// `target_width`.
pub fn pad_to_display_width(text: &str, target_width: usize) -> (s: String)
    ensures
        s@ == pad_display_spec(text@, target_width as nat),
{
    let w = display_width(text);
    let fill: usize = if target_width >= w {
        target_width - w
    } else {
        0
    };
    let mut s = copy_str(text);
    push_repeated(&mut s, ' ', fill);
    s
}

/// One line of the session table: the first four columns padded to their
/// widths, two spaces between columns, and the directory last.
pub open spec fn column_row_spec(
    id: Seq<char>,
    name: Seq<char>,
    status: Seq<char>,
    memory: Seq<char>,
    directory: Seq<char>,
    widths: ColumnWidths,
) -> Seq<char> {
    pad_display_spec(id, widths.id as nat) + "  "@ + pad_display_spec(name, widths.name as nat)
        + "  "@ + pad_display_spec(status, widths.status as nat) + "  "@ + pad_display_spec(
        memory,
        widths.memory as nat,
    ) + "  "@ + directory
}

/// One line of the session table.
pub fn format_column_row(
    id: &str,
    name: &str,
    status: &str,
    memory: &str,
    directory: &str,
    widths: &ColumnWidths,
) -> (s: String)
    ensures
        s@ == column_row_spec(id@, name@, status@, memory@, directory@, *widths),
{
    let mut s = pad_to_display_width(id, widths.id);
    append_str(&mut s, "  ");
    let n = pad_to_display_width(name, widths.name);
    append_str(&mut s, n.as_str());
    append_str(&mut s, "  ");
    let st = pad_to_display_width(status, widths.status);
    append_str(&mut s, st.as_str());
    append_str(&mut s, "  ");
    let m = pad_to_display_width(memory, widths.memory);
    append_str(&mut s, m.as_str());
    append_str(&mut s, "  ");
    append_str(&mut s, directory);
    s
}

/// The width that the `unicode-width` crate gives one character: `None` for a
/// control character.
pub uninterp spec fn char_width_spec(c: char) -> Option<usize>;

/// Calls `unicode_width::UnicodeWidthChar::width` on `c`; the result is the
/// name above applied to `c`. As the crate's source shows, the control
/// characters below U+0020 and from U+007F up to U+00A0 have no width, and the
/// printable ASCII characters have width one. The widths it looks up in its
/// tables for other characters are not stated.
#[verifier::external_body]
fn char_display_width(c: char) -> (w: Option<usize>)
    ensures
        w == char_width_spec(c),
        ' ' <= c <= '~' ==> w == Some(1usize),
        (c < ' ' || ('\u{7f}' <= c && c < '\u{a0}')) ==> w is None,
{
    unicode_width::UnicodeWidthChar::width(c)
}

/// The width that a character takes when text is clipped: a control
/// character takes none.
pub open spec fn clip_char_width(c: char) -> nat {
    match char_width_spec(c) {
        Some(w) => w as nat,
        None => 0,
    }
}

/// The longest start of `text` whose characters fit in `max` columns, taken
/// character by character.
pub open spec fn clip_spec(text: Seq<char>, max: nat) -> Seq<char>
    decreases text.len(),
{
    if text.len() == 0 || clip_char_width(text[0]) > max {
        Seq::empty()
    } else {
        seq![text[0]] + clip_spec(text.drop_first(), (max - clip_char_width(text[0])) as nat)
    }
}

/// The columns that `text` takes when clipped, character by character.
pub open spec fn clipped_width(text: Seq<char>) -> nat
    decreases text.len(),
{
    if text.len() == 0 {
        0
    } else {
        clip_char_width(text[0]) + clipped_width(text.drop_first())
    }
}

/// Clipping keeps a start of the text that fits: the clipped text begins the
/// original, takes at most `max` columns, and stops only where the next
/// character would not fit.
pub proof fn law_clipped_text_is_the_longest_start_that_fits(text: Seq<char>, max: nat)
    ensures
        ({
            let c = clip_spec(text, max);
            &&& c.len() <= text.len()
            &&& c == text.take(c.len() as int)
            &&& clipped_width(c) <= max
            &&& c.len() < text.len() ==> clipped_width(c) + clip_char_width(text[c.len() as int]) > max
        }),
    decreases text.len(),
{
    if text.len() > 0 && clip_char_width(text[0]) <= max {
        let rest = (max - clip_char_width(text[0])) as nat;
        law_clipped_text_is_the_longest_start_that_fits(text.drop_first(), rest);
        let c = clip_spec(text, max);
        let d = clip_spec(text.drop_first(), rest);
        assert(c == seq![text[0]] + d);
        assert(c.drop_first() =~= d);
        assert(c =~= text.take(c.len() as int));
        if c.len() < text.len() {
            assert(text[c.len() as int] == text.drop_first()[d.len() as int]);
        }
    } else if text.len() > 0 {
        assert(clip_spec(text, max) =~= Seq::<char>::empty());
        assert(text.take(0) =~= Seq::<char>::empty());
    }
}

/// Padding keeps the text and adds only spaces: the padded text begins with
/// the text, continues with spaces, and, where the text is narrower than
/// `width`, takes exactly `width` columns' worth of characters more.
pub proof fn law_padding_keeps_the_text_and_adds_spaces(text: Seq<char>, width: nat)
    ensures
        ({
            let p = pad_display_spec(text, width);
            &&& p.take(text.len() as int) == text
            &&& forall|i: int| text.len() <= i < p.len() ==> #[trigger] p[i] == ' '
            &&& display_width_spec(text) <= width ==> p.len() == text.len() + width
                - display_width_spec(text)
            &&& display_width_spec(text) >= width ==> p == text
        }),
{
    let p = pad_display_spec(text, width);
    assert(p.take(text.len() as int) =~= text);
    if display_width_spec(text) >= width {
        assert(p =~= text);
    }
}

/// The longest start of `text` that fits in `max_width` columns.
pub fn clip_text_to_width(text: &str, max_width: usize) -> (s: String)
    ensures
        s@ == clip_spec(text@, max_width as nat),
{
    let cs = chars_of(text);
    let mut out = String::new();
    let mut used: usize = 0;
    let mut i: usize = 0;
    let mut full = false;
    assert(cs@.subrange(0, cs@.len() as int) =~= cs@);
    assert(out@ + clip_spec(cs@, max_width as nat) =~= clip_spec(cs@, max_width as nat));
    while i < cs.len() && !full
        invariant
            i <= cs.len(),
            used <= max_width,
            !full ==> out@ + clip_spec(cs@.subrange(i as int, cs@.len() as int), (max_width - used) as nat)
                == clip_spec(cs@, max_width as nat),
            full ==> out@ == clip_spec(cs@, max_width as nat),
        decreases cs.len() - i + (if full { 0int } else { 1int }),
    {
        let c = cs[i];
        let ghost rest = cs@.subrange(i as int, cs@.len() as int);
        assert(rest[0] == c);
        assert(rest.drop_first() =~= cs@.subrange(i + 1, cs@.len() as int));
        let w: usize = match char_display_width(c) {
            Some(w) => w,
            None => 0,
        };
        if w > max_width - used {
            assert(out@ + Seq::<char>::empty() =~= out@);
            full = true;
        } else {
            let ghost before = out@;
            push_char(&mut out, c);
            used = used + w;
            i = i + 1;
            assert(before + (seq![c] + clip_spec(cs@.subrange(i as int, cs@.len() as int), (max_width - used) as nat))
                =~= out@ + clip_spec(cs@.subrange(i as int, cs@.len() as int), (max_width - used) as nat));
        }
    }
    proof {
        if !full {
            assert(cs@.subrange(i as int, cs@.len() as int) =~= Seq::<char>::empty());
            assert(out@ + Seq::<char>::empty() =~= out@);
        }
    }
    assert(cs@ == text@);
    out
}

/// How the pieces of one line, from piece `k` on, fill `remaining` columns:
/// each piece is clipped to the columns still free, a piece that keeps no width
/// is left out, and filling stops once no column is free. The result lists the
/// pieces kept (by their place in `runs`), their clipped texts, and the columns
/// left free at the end.
pub open spec fn fit_runs_spec(runs: Seq<Seq<char>>, k: int, remaining: nat) -> (
    Seq<int>,
    Seq<Seq<char>>,
    nat,
)
    decreases runs.len() - k,
{
    if k < 0 || k >= runs.len() || remaining == 0 {
        (Seq::empty(), Seq::empty(), remaining)
    } else {
        let clipped = clip_spec(runs[k], remaining);
        let w = display_width_spec(clipped);
        let next = fit_runs_spec(runs, k + 1, sat_sub(remaining, w));
        if w == 0 {
            next
        } else {
            (seq![k] + next.0, seq![clipped] + next.1, next.2)
        }
    }
}

/// The pieces of one line fitted into `width` columns: the places of the
/// pieces kept, their clipped texts, and the columns left to fill.
pub fn fit_runs(runs: &Vec<String>, width: usize) -> (r: (Vec<usize>, Vec<String>, usize))
    ensures
        r.0@.map_values(|i: usize| i as int) == fit_runs_spec(string_views(runs@), 0, width as nat).0,
        string_views(r.1@) == fit_runs_spec(string_views(runs@), 0, width as nat).1,
        r.2 as nat == fit_runs_spec(string_views(runs@), 0, width as nat).2,
{
    let ghost rs = string_views(runs@);
    let ghost goal = fit_runs_spec(rs, 0, width as nat);
    let mut kept: Vec<usize> = Vec::new();
    let mut texts: Vec<String> = Vec::new();
    let mut remaining: usize = width;
    let mut i: usize = 0;
    assert(kept@.map_values(|j: usize| j as int) + goal.0 =~= goal.0);
    assert(string_views(texts@) + goal.1 =~= goal.1);
    while i < runs.len() && remaining > 0
        invariant
            i <= runs.len(),
            rs == string_views(runs@),
            goal == fit_runs_spec(rs, 0, width as nat),
            kept@.map_values(|j: usize| j as int) + fit_runs_spec(rs, i as int, remaining as nat).0
                == goal.0,
            string_views(texts@) + fit_runs_spec(rs, i as int, remaining as nat).1 == goal.1,
            fit_runs_spec(rs, i as int, remaining as nat).2 == goal.2,
        decreases runs.len() - i,
    {
        let clipped = clip_text_to_width(runs[i].as_str(), remaining);
        assert(rs[i as int] == runs@[i as int]@);
        let w = display_width(clipped.as_str());
        let ghost next = fit_runs_spec(rs, i + 1, sat_sub(remaining as nat, w as nat));
        let ghost kept_before = kept@.map_values(|j: usize| j as int);
        let ghost texts_before = string_views(texts@);
        if w > 0 {
            kept.push(i);
            texts.push(clipped);
            assert(kept@.map_values(|j: usize| j as int) =~= kept_before.push(i as int));
            assert(string_views(texts@) =~= texts_before.push(clipped@));
            assert(kept_before + (seq![i as int] + next.0) =~= kept_before.push(i as int) + next.0);
            assert(texts_before + (seq![clipped@] + next.1) =~= texts_before.push(clipped@) + next.1);
        }
        remaining = if w >= remaining { 0 } else { remaining - w };
        i = i + 1;
    }
    proof {
        let f = fit_runs_spec(rs, i as int, remaining as nat);
        assert(f.0 == Seq::<int>::empty());
        assert(f.1 == Seq::<Seq<char>>::empty());
        assert(kept@.map_values(|j: usize| j as int) + Seq::<int>::empty() =~= kept@.map_values(|j: usize| j as int));
        assert(string_views(texts@) + Seq::<Seq<char>>::empty() =~= string_views(texts@));
    }
    (kept, texts, remaining)
}

} // verus!
