//! The mapping language.
//!
//! ```text
//! file     := blank (definition blank)* end      -- nothing but blanks: the default group
//! definition := mapping | mode
//! mapping  := ("map" | "cmd") sep trigger sep text-to-end-of-line
//! mode     := "mode" sep trigger sep "{" blank (mapping blank)+ "}"
//! trigger  := button+       button := "<" ("play" | "up" | "down") ">"
//! sep      := (" " | "\t")+
//! blank    := ("\n" | " " | "\t" | "#" text-to-end-of-line)*
//! ```
//!
//! Button names are read without regard to ASCII case. Every mapping line ends
//! with a line break, the last one of the file included. The spec functions
//! below read from a position and give the value read and where it ends, or
//! nothing; beside it they give the furthest position at which reading stopped
//! or failed, with every token expected there (`no_stop()` where nothing
//! failed): that is what an error reports.

use vstd::prelude::*;
use crate::action::{Action, ActionView, MapKind};
use crate::error::{
    Expected, Failure, ParseError, Stop, lemma_merge_assoc, lemma_merge_no_stop, merge, no_stop,
    reports, stop,
};
use crate::group::{
    Definition, DefinitionView, MapGroup, MapGroupView, Mapping, MappingView, Mode, ModeView,
    apply_definitions, default_group, resolved_group, table_of,
};
use crate::keys::HeadphoneButton;
use crate::table::MapCollection;
use crate::text::{chars_of, exact_at, exact_at_exec, word_at, word_at_exec};

verus! {

pub open spec fn is_sep_char(c: char) -> bool {
    c == ' ' || c == '\t'
}

/// Where the run of spaces and tabs from `i` ends.
pub open spec fn sep_end(s: Seq<char>, i: int) -> int
    decreases s.len() - i,
{
    if 0 <= i < s.len() && is_sep_char(s[i]) {
        sep_end(s, i + 1)
    } else {
        i
    }
}

/// What a run of spaces and tabs that ends at `e` expected there.
pub open spec fn sep_stop(e: int) -> Stop {
    merge(stop(e, Expected::Whitespace), stop(e, Expected::Tab))
}

/// One or more spaces and tabs.
pub open spec fn sep_at(s: Seq<char>, i: int) -> (Option<int>, Stop) {
    let e = sep_end(s, i);
    (if e > i { Some(e) } else { None }, sep_stop(e))
}

pub open spec fn button_name_at(s: Seq<char>, j: int) -> Option<(HeadphoneButton, int)> {
    if word_at(s, j, "play"@) {
        Some((HeadphoneButton::Play, j + "play"@.len()))
    } else if word_at(s, j, "up"@) {
        Some((HeadphoneButton::Up, j + "up"@.len()))
    } else if word_at(s, j, "down"@) {
        Some((HeadphoneButton::Down, j + "down"@.len()))
    } else {
        None
    }
}

/// A button token such as `<play>`.
pub open spec fn button_at(s: Seq<char>, i: int) -> (Option<(HeadphoneButton, int)>, Stop) {
    if 0 <= i < s.len() && s[i] == '<' {
        match button_name_at(s, i + 1) {
            Some((b, e)) => if e < s.len() && s[e] == '>' {
                (Some((b, e + 1)), no_stop())
            } else {
                (None, stop(e, Expected::ButtonEnd))
            },
            None => (None, stop(i + 1, Expected::ButtonName)),
        }
    } else {
        (None, stop(i, Expected::ButtonStart))
    }
}

/// The buttons written one after another from `i`: the buttons, where they
/// end, and the furthest failure.
pub open spec fn buttons_from(s: Seq<char>, i: int) -> (Seq<HeadphoneButton>, int, Stop)
    decreases s.len() - i,
{
    let (r, f) = button_at(s, i);
    match r {
        Some((b, e)) => if i < e <= s.len() {
            let (bs, end, far) = buttons_from(s, e);
            (seq![b] + bs, end, merge(f, far))
        } else {
            (Seq::empty(), i, f)
        },
        None => (Seq::empty(), i, f),
    }
}

/// A trigger: one or more buttons.
pub open spec fn trigger_at(s: Seq<char>, i: int) -> (Option<(Seq<HeadphoneButton>, int)>, Stop) {
    let (bs, e, far) = buttons_from(s, i);
    (if bs.len() > 0 { Some((bs, e)) } else { None }, far)
}

/// The kind word of a declaration.
pub open spec fn map_kind_at(s: Seq<char>, i: int) -> (Option<(MapKind, int)>, Stop) {
    if exact_at(s, i, "map"@) {
        (Some((MapKind::Keys, i + "map"@.len())), no_stop())
    } else if exact_at(s, i, "cmd"@) {
        (Some((MapKind::Command, i + "cmd"@.len())), no_stop())
    } else {
        (None, merge(stop(i, Expected::MapKeyword), stop(i, Expected::CmdKeyword)))
    }
}

/// The first line break at or after `i`, or the end.
pub open spec fn newline_from(s: Seq<char>, i: int) -> int
    decreases s.len() - i,
{
    if 0 <= i < s.len() && s[i] != '\n' {
        newline_from(s, i + 1)
    } else {
        i
    }
}

/// The text up to the next line break, which must be there.
pub open spec fn line_at(s: Seq<char>, i: int) -> (Option<(Seq<char>, int)>, Stop) {
    let e = newline_from(s, i);
    if 0 <= i <= e < s.len() {
        (Some((s.subrange(i, e), e)), no_stop())
    } else {
        (None, stop(e, Expected::Newline))
    }
}

/// A `map` or `cmd` declaration; it ends before its line break.
pub open spec fn mapping_at(s: Seq<char>, i: int) -> (Option<(MappingView, int)>, Stop) {
    let (k, f1) = map_kind_at(s, i);
    match k {
        None => (None, f1),
        Some((kind, pos1)) => {
            let (a, f2) = sep_at(s, pos1);
            match a {
                None => (None, merge(f1, f2)),
                Some(pos2) => {
                    let (t, f3) = trigger_at(s, pos2);
                    let f123 = merge(merge(f1, f2), f3);
                    match t {
                        None => (None, f123),
                        Some((trigger, pos3)) => {
                            let (b, f4) = sep_at(s, pos3);
                            match b {
                                None => (None, merge(f123, f4)),
                                Some(pos4) => {
                                    let (l, f5) = line_at(s, pos4);
                                    let far = merge(merge(f123, f4), f5);
                                    match l {
                                        None => (None, far),
                                        Some((text, pos5)) => (
                                            Some(
                                                (
                                                    MappingView {
                                                        trigger,
                                                        action: ActionView::String(text),
                                                        kind,
                                                    },
                                                    pos5,
                                                ),
                                            ),
                                            far,
                                        ),
                                    }
                                },
                            }
                        },
                    }
                },
            }
        },
    }
}

/// Where the blanks from `i` end: line breaks, spaces, tabs and comments.
pub open spec fn blank_scan(s: Seq<char>, i: int, in_comment: bool) -> int
    decreases s.len() - i,
{
    if 0 <= i < s.len() {
        if in_comment && s[i] != '\n' {
            blank_scan(s, i + 1, true)
        } else if s[i] == '\n' || is_sep_char(s[i]) {
            blank_scan(s, i + 1, false)
        } else if s[i] == '#' {
            blank_scan(s, i + 1, true)
        } else {
            i
        }
    } else {
        i
    }
}

pub open spec fn blank_end(s: Seq<char>, i: int) -> int {
    blank_scan(s, i, false)
}

/// What blanks that end at `b` expected there.
pub open spec fn blank_stop(b: int) -> Stop {
    merge(
        merge(merge(stop(b, Expected::Newline), stop(b, Expected::Whitespace)), stop(b, Expected::Tab)),
        stop(b, Expected::Comment),
    )
}

/// Declarations, each followed by blanks, from `i`: the declarations, where
/// they end, the furthest failure, and whether reading went well. A
/// declaration that breaks after its kind word spoils the whole run.
pub open spec fn mappings_from(s: Seq<char>, i: int) -> (Seq<MappingView>, int, Stop, bool)
    decreases s.len() - i,
{
    let (m, f) = mapping_at(s, i);
    match m {
        Some((mv, e)) => {
            let b = blank_end(s, e);
            if i < b <= s.len() {
                let (ms, end, far, ok) = mappings_from(s, b);
                (seq![mv] + ms, end, merge(merge(f, blank_stop(b)), far), ok)
            } else {
                (Seq::empty(), i, f, true)
            }
        },
        None => (Seq::empty(), i, f, map_kind_at(s, i).0 is None),
    }
}

/// One or more declarations, each followed by blanks.
pub open spec fn maps_at(s: Seq<char>, i: int) -> (Option<(Seq<MappingView>, int)>, Stop) {
    let (ms, e, far, ok) = mappings_from(s, i);
    (if ok && ms.len() > 0 { Some((ms, e)) } else { None }, far)
}

/// Blanks, then one or more declarations.
pub open spec fn collection_at(s: Seq<char>, i: int) -> (Option<(Seq<MappingView>, int)>, Stop) {
    let b = blank_end(s, i);
    let (r, far) = maps_at(s, b);
    (r, merge(blank_stop(b), far))
}

/// A mode block.
pub open spec fn mode_at(s: Seq<char>, i: int) -> (Option<(ModeView, int)>, Stop) {
    if !exact_at(s, i, "mode"@) {
        (None, stop(i, Expected::ModeKeyword))
    } else {
        let pos1 = i + "mode"@.len();
        let (a, f2) = sep_at(s, pos1);
        match a {
            None => (None, f2),
            Some(pos2) => {
                let (t, f3) = trigger_at(s, pos2);
                match t {
                    None => (None, merge(f2, f3)),
                    Some((trigger, pos3)) => {
                        let (b, f4) = sep_at(s, pos3);
                        let f234 = merge(merge(f2, f3), f4);
                        match b {
                            None => (None, f234),
                            Some(pos4) => if !(pos4 < s.len() && s[pos4] == '{') {
                                (None, merge(f234, stop(pos4, Expected::BlockStart)))
                            } else {
                                let (c, f5) = collection_at(s, pos4 + 1);
                                let f2345 = merge(f234, f5);
                                match c {
                                    None => (None, f2345),
                                    Some((ms, pos5)) => if 0 <= pos5 < s.len() && s[pos5] == '}' {
                                        (Some((ModeView { trigger, maps: table_of(ms) }, pos5 + 1)), f2345)
                                    } else {
                                        (None, merge(f2345, stop(pos5, Expected::BlockEnd)))
                                    },
                                }
                            },
                        }
                    },
                }
            },
        }
    }
}

/// A top-level declaration.
pub open spec fn definition_at(s: Seq<char>, i: int) -> (Option<(DefinitionView, int)>, Stop) {
    let (m, f1) = mapping_at(s, i);
    match m {
        Some((mv, e)) => (Some((DefinitionView::Mapping(mv), e)), f1),
        None => {
            let (md, f2) = mode_at(s, i);
            match md {
                Some((mo, e)) => (Some((DefinitionView::Mode(mo), e)), merge(f1, f2)),
                None => (None, merge(f1, f2)),
            }
        },
    }
}

/// Top-level declarations, each followed by blanks, from `i`.
pub open spec fn definitions_from(s: Seq<char>, i: int) -> (Seq<DefinitionView>, int, Stop)
    decreases s.len() - i,
{
    let (d, f) = definition_at(s, i);
    match d {
        Some((dv, e)) => {
            let b = blank_end(s, e);
            if i < b <= s.len() {
                let (ds, end, far) = definitions_from(s, b);
                (seq![dv] + ds, end, merge(merge(f, blank_stop(b)), far))
            } else {
                (Seq::empty(), i, f)
            }
        },
        None => (Seq::empty(), i, f),
    }
}

/// Blanks, then one or more top-level declarations.
pub open spec fn definitions_at(s: Seq<char>, i: int) -> (Option<(Seq<DefinitionView>, int)>, Stop) {
    let b = blank_end(s, i);
    let (ds, e, far) = definitions_from(s, b);
    (if ds.len() > 0 { Some((ds, e)) } else { None }, merge(blank_stop(b), far))
}

/// The configuration that a whole mapping file describes, or the position
/// at which it stops making sense. A file of blanks alone gives the default
/// group; otherwise the declarations are applied in order to the default
/// group.
pub open spec fn group_of(s: Seq<char>) -> Result<MapGroupView, Stop> {
    let b = blank_end(s, 0);
    if b == s.len() {
        Ok(default_group())
    } else {
        let blanks_only = merge(blank_stop(b), stop(b, Expected::EndOfInput));
        let (d, f) = definitions_at(s, 0);
        match d {
            Some((ds, e)) => if e == s.len() {
                Ok(apply_definitions(default_group(), ds))
            } else {
                Err(merge(merge(blanks_only, f), stop(e, Expected::EndOfInput)))
            },
            None => Err(merge(blanks_only, f)),
        }
    }
}


/// One or more spaces and tabs from `i`; where they end.
fn whitespace_separator(s: &Vec<char>, i: usize, fail: &mut Failure) -> (r: Option<usize>)
    requires
        i <= s@.len(),
        old(fail).pos <= s@.len(),
    ensures
        match r {
            Some(e) => sep_at(s@, i as int).0 == Some(e as int) && i < e <= s@.len(),
            None => sep_at(s@, i as int).0 is None,
        },
        final(fail)@ == merge(old(fail)@, sep_at(s@, i as int).1),
        final(fail).pos <= s@.len(),
{
    let ghost f0 = fail@;
    let n = s.len();
    let mut j = i;
    while j < n && (s[j] == ' ' || s[j] == '\t')
        invariant
            i <= j <= n,
            n == s@.len(),
            sep_end(s@, i as int) == sep_end(s@, j as int),
        decreases n - j,
    {
        j = j + 1;
    }
    fail.note(j, Expected::Whitespace);
    fail.note(j, Expected::Tab);
    proof {
        lemma_merge_assoc(f0, stop(j as int, Expected::Whitespace), stop(j as int, Expected::Tab));
    }
    if j > i {
        Some(j)
    } else {
        None
    }
}

/// A button token at `i`, and where it ends.
fn headphone_button_at(s: &Vec<char>, i: usize, fail: &mut Failure) -> (r: Option<(HeadphoneButton, usize)>)
    requires
        i <= s@.len(),
        old(fail).pos <= s@.len(),
    ensures
        match r {
            Some((b, e)) => button_at(s@, i as int).0 == Some((b, e as int)) && i < e <= s@.len(),
            None => button_at(s@, i as int).0 is None,
        },
        final(fail)@ == merge(old(fail)@, button_at(s@, i as int).1),
        final(fail).pos <= s@.len(),
{
    let n = s.len();
    if i < n && s[i] == '<' {
        let j = i + 1;
        let name = if word_at_exec(s, j, "play") {
            Some((HeadphoneButton::Play, j + "play".unicode_len()))
        } else if word_at_exec(s, j, "up") {
            Some((HeadphoneButton::Up, j + "up".unicode_len()))
        } else if word_at_exec(s, j, "down") {
            Some((HeadphoneButton::Down, j + "down".unicode_len()))
        } else {
            None
        };
        match name {
            Some((b, e)) => {
                if e < n && s[e] == '>' {
                    proof {
                        lemma_merge_no_stop(fail@);
                    }
                    Some((b, e + 1))
                } else {
                    fail.note(e, Expected::ButtonEnd);
                    None
                }
            },
            None => {
                fail.note(j, Expected::ButtonName);
                None
            },
        }
    } else {
        fail.note(i, Expected::ButtonStart);
        None
    }
}

/// A trigger at `i`: one or more buttons, and where they end.
fn trigger_from(s: &Vec<char>, i: usize, fail: &mut Failure) -> (r: Option<(Vec<HeadphoneButton>, usize)>)
    requires
        i <= s@.len(),
        old(fail).pos <= s@.len(),
    ensures
        match r {
            Some((t, e)) => trigger_at(s@, i as int).0 == Some((t@, e as int)) && i < e <= s@.len(),
            None => trigger_at(s@, i as int).0 is None,
        },
        final(fail)@ == merge(old(fail)@, trigger_at(s@, i as int).1),
        final(fail).pos <= s@.len(),
{
    let mut out: Vec<HeadphoneButton> = Vec::new();
    let mut j = i;
    loop
        invariant
            i <= j <= s@.len(),
            fail.pos <= s@.len(),
            out@.len() > 0 ==> i < j,
            buttons_from(s@, i as int).0 == out@ + buttons_from(s@, j as int).0,
            buttons_from(s@, i as int).1 == buttons_from(s@, j as int).1,
            merge(old(fail)@, buttons_from(s@, i as int).2) == merge(fail@, buttons_from(s@, j as int).2),
        decreases s@.len() - j,
    {
        let ghost f0 = fail@;
        match headphone_button_at(s, j, fail) {
            Some((b, e)) => {
                proof {
                    lemma_merge_assoc(f0, button_at(s@, j as int).1, buttons_from(s@, e as int).2);
                    let rest = buttons_from(s@, e as int).0;
                    assert(out@ + (seq![b] + rest) =~= out@.push(b) + rest);
                }
                out.push(b);
                j = e;
            },
            None => {
                assert(out@ + Seq::<HeadphoneButton>::empty() =~= out@);
                if out.len() > 0 {
                    return Some((out, j));
                } else {
                    return None;
                }
            },
        }
    }
}

/// The kind word at `i`, and where it ends.
fn map_kind_from(s: &Vec<char>, i: usize, fail: &mut Failure) -> (r: Option<(MapKind, usize)>)
    requires
        i <= s@.len(),
        old(fail).pos <= s@.len(),
    ensures
        match r {
            Some((k, e)) => map_kind_at(s@, i as int).0 == Some((k, e as int)) && i < e <= s@.len(),
            None => map_kind_at(s@, i as int).0 is None,
        },
        final(fail)@ == merge(old(fail)@, map_kind_at(s@, i as int).1),
        final(fail).pos <= s@.len(),
{
    let ghost f0 = fail@;
    let n = s.len();
    if exact_at_exec(s, i, "map") {
        proof {
            reveal_strlit("map");
            lemma_merge_no_stop(f0);
        }
        Some((MapKind::Keys, i + "map".unicode_len()))
    } else if exact_at_exec(s, i, "cmd") {
        proof {
            reveal_strlit("cmd");
            lemma_merge_no_stop(f0);
        }
        Some((MapKind::Command, i + "cmd".unicode_len()))
    } else {
        fail.note(i, Expected::MapKeyword);
        fail.note(i, Expected::CmdKeyword);
        proof {
            lemma_merge_assoc(f0, stop(i as int, Expected::MapKeyword), stop(i as int, Expected::CmdKeyword));
        }
        None
    }
}

/// The text from `i` up to the next line break, and where it ends.
fn action_from(text: &str, s: &Vec<char>, i: usize, fail: &mut Failure) -> (r: Option<(String, usize)>)
    requires
        s@ == text@,
        i <= s@.len(),
        old(fail).pos <= s@.len(),
    ensures
        match r {
            Some((t, e)) => line_at(s@, i as int).0 == Some((t@, e as int)) && i <= e < s@.len(),
            None => line_at(s@, i as int).0 is None,
        },
        final(fail)@ == merge(old(fail)@, line_at(s@, i as int).1),
        final(fail).pos <= s@.len(),
{
    let n = s.len();
    let mut j = i;
    while j < n && s[j] != '\n'
        invariant
            i <= j <= n,
            n == s@.len(),
            newline_from(s@, i as int) == newline_from(s@, j as int),
        decreases n - j,
    {
        j = j + 1;
    }
    if j < n {
        let t = String::from_str(text.substring_char(i, j));
        proof {
            lemma_merge_no_stop(fail@);
        }
        Some((t, j))
    } else {
        fail.note(j, Expected::Newline);
        None
    }
}


/// A `map` or `cmd` declaration at `i`, and where it ends (before its line
/// break).
fn mapping_from(text: &str, s: &Vec<char>, i: usize, fail: &mut Failure) -> (r: Option<(Mapping, usize)>)
    requires
        s@ == text@,
        i <= s@.len(),
        old(fail).pos <= s@.len(),
    ensures
        match r {
            Some((m, e)) => mapping_at(s@, i as int).0 == Some((m@, e as int)) && i < e < s@.len(),
            None => mapping_at(s@, i as int).0 is None,
        },
        final(fail)@ == merge(old(fail)@, mapping_at(s@, i as int).1),
        final(fail).pos <= s@.len(),
{
    let ghost f0 = fail@;
    let ghost f1 = map_kind_at(s@, i as int).1;
    let (kind, pos1) = match map_kind_from(s, i, fail) {
        Some(x) => x,
        None => return None,
    };
    let ghost f2 = sep_at(s@, pos1 as int).1;
    let pos2 = match whitespace_separator(s, pos1, fail) {
        Some(x) => x,
        None => {
            proof {
                lemma_merge_assoc(f0, f1, f2);
            }
            return None;
        },
    };
    proof {
        lemma_merge_assoc(f0, f1, f2);
    }
    let ghost f3 = trigger_at(s@, pos2 as int).1;
    let (trigger, pos3) = match trigger_from(s, pos2, fail) {
        Some(x) => x,
        None => {
            proof {
                lemma_merge_assoc(f0, merge(f1, f2), f3);
            }
            return None;
        },
    };
    proof {
        lemma_merge_assoc(f0, merge(f1, f2), f3);
    }
    let ghost f123 = merge(merge(f1, f2), f3);
    let ghost f4 = sep_at(s@, pos3 as int).1;
    let pos4 = match whitespace_separator(s, pos3, fail) {
        Some(x) => x,
        None => {
            proof {
                lemma_merge_assoc(f0, f123, f4);
            }
            return None;
        },
    };
    proof {
        lemma_merge_assoc(f0, f123, f4);
    }
    let ghost f5 = line_at(s@, pos4 as int).1;
    let (t, pos5) = match action_from(text, s, pos4, fail) {
        Some(x) => x,
        None => {
            proof {
                lemma_merge_assoc(f0, merge(f123, f4), f5);
            }
            return None;
        },
    };
    proof {
        lemma_merge_assoc(f0, merge(f123, f4), f5);
    }
    Some((Mapping { trigger, action: Action::String(t), kind }, pos5))
}

/// Where the blanks from `i` end.
fn blank_from(s: &Vec<char>, i: usize, fail: &mut Failure) -> (r: usize)
    requires
        i <= s@.len(),
        old(fail).pos <= s@.len(),
    ensures
        r == blank_end(s@, i as int),
        i <= r <= s@.len(),
        final(fail)@ == merge(old(fail)@, blank_stop(r as int)),
        final(fail).pos <= s@.len(),
{
    let ghost f0 = fail@;
    let n = s.len();
    let mut j = i;
    let mut in_comment = false;
    while j < n && (in_comment || s[j] == '\n' || s[j] == ' ' || s[j] == '\t' || s[j] == '#')
        invariant
            i <= j <= n,
            n == s@.len(),
            blank_scan(s@, i as int, false) == blank_scan(s@, j as int, in_comment),
        decreases n - j,
    {
        if in_comment && s[j] != '\n' {
        } else if s[j] == '#' {
            in_comment = true;
        } else {
            in_comment = false;
        }
        j = j + 1;
    }
    fail.note(j, Expected::Newline);
    fail.note(j, Expected::Whitespace);
    fail.note(j, Expected::Tab);
    fail.note(j, Expected::Comment);
    proof {
        let nl = stop(j as int, Expected::Newline);
        let ws = stop(j as int, Expected::Whitespace);
        let tb = stop(j as int, Expected::Tab);
        let cm = stop(j as int, Expected::Comment);
        lemma_merge_assoc(f0, nl, ws);
        lemma_merge_assoc(f0, merge(nl, ws), tb);
        lemma_merge_assoc(f0, merge(merge(nl, ws), tb), cm);
    }
    j
}

/// One or more declarations at `i`, each followed by blanks: their table,
/// and where they end.
fn maps_from(text: &str, s: &Vec<char>, i: usize, fail: &mut Failure) -> (r: Option<(MapCollection, usize)>)
    requires
        s@ == text@,
        i <= s@.len(),
        old(fail).pos <= s@.len(),
    ensures
        match maps_at(s@, i as int).0 {
            Some((ms, e)) => r matches Some((t, e2)) && e2 == e && t@ == table_of(ms) && t.wf() && i < e2 <= s@.len(),
            None => r is None,
        },
        final(fail)@ == merge(old(fail)@, maps_at(s@, i as int).1),
        final(fail).pos <= s@.len(),
{
    let mut table = MapCollection::new();
    let ghost mut acc: Seq<MappingView> = Seq::empty();
    let mut any = false;
    let mut j = i;
    loop
        invariant
            s@ == text@,
            i <= j <= s@.len(),
            fail.pos <= s@.len(),
            table.wf(),
            table@ == table_of(acc),
            any == (acc.len() > 0),
            any ==> i < j,
            mappings_from(s@, i as int).0 == acc + mappings_from(s@, j as int).0,
            mappings_from(s@, i as int).1 == mappings_from(s@, j as int).1,
            mappings_from(s@, i as int).3 == mappings_from(s@, j as int).3,
            merge(old(fail)@, mappings_from(s@, i as int).2) == merge(fail@, mappings_from(s@, j as int).2),
        decreases s@.len() - j,
    {
        let ghost f0 = fail@;
        match mapping_from(text, s, j, fail) {
            Some((m, e)) => {
                let b = blank_from(s, e, fail);
                let ghost mv = m@;
                proof {
                    let fm = mapping_at(s@, j as int).1;
                    let bs = blank_stop(b as int);
                    lemma_merge_assoc(f0, merge(fm, bs), mappings_from(s@, b as int).2);
                    lemma_merge_assoc(f0, fm, bs);
                    let rest = mappings_from(s@, b as int).0;
                    assert(acc + (seq![mv] + rest) =~= acc.push(mv) + rest);
                    assert(acc.push(mv).drop_last() =~= acc);
                }
                table.insert(m.trigger, crate::action::MapAction { action: m.action, kind: m.kind });
                proof {
                    acc = acc.push(mv);
                }
                any = true;
                j = b;
            },
            None => {
                assert(acc + Seq::<MappingView>::empty() =~= acc);
                if exact_at_exec(s, j, "map") || exact_at_exec(s, j, "cmd") {
                    return None;
                }
                if any {
                    return Some((table, j));
                } else {
                    return None;
                }
            },
        }
    }
}

/// Blanks, then one or more declarations, at `i`.
fn map_collection_from(text: &str, s: &Vec<char>, i: usize, fail: &mut Failure) -> (r: Option<(MapCollection, usize)>)
    requires
        s@ == text@,
        i <= s@.len(),
        old(fail).pos <= s@.len(),
    ensures
        match collection_at(s@, i as int).0 {
            Some((ms, e)) => r matches Some((t, e2)) && e2 == e && t@ == table_of(ms) && t.wf() && i < e2 <= s@.len(),
            None => r is None,
        },
        final(fail)@ == merge(old(fail)@, collection_at(s@, i as int).1),
        final(fail).pos <= s@.len(),
{
    let ghost f0 = fail@;
    let b = blank_from(s, i, fail);
    let r = maps_from(text, s, b, fail);
    proof {
        lemma_merge_assoc(f0, blank_stop(b as int), maps_at(s@, b as int).1);
    }
    r
}

/// A mode block at `i`, and where it ends.
fn mode_from(text: &str, s: &Vec<char>, i: usize, fail: &mut Failure) -> (r: Option<(Mode, usize)>)
    requires
        s@ == text@,
        i <= s@.len(),
        old(fail).pos <= s@.len(),
    ensures
        match mode_at(s@, i as int).0 {
            Some((mv, e)) => r matches Some((m, e2)) && e2 == e && m@ == mv && m.maps.wf() && i < e2 <= s@.len(),
            None => r is None,
        },
        final(fail)@ == merge(old(fail)@, mode_at(s@, i as int).1),
        final(fail).pos <= s@.len(),
{
    let ghost f0 = fail@;
    let n = s.len();
    if !exact_at_exec(s, i, "mode") {
        fail.note(i, Expected::ModeKeyword);
        return None;
    }
    let pos1 = i + "mode".unicode_len();
    let ghost f2 = sep_at(s@, pos1 as int).1;
    let pos2 = match whitespace_separator(s, pos1, fail) {
        Some(x) => x,
        None => return None,
    };
    let ghost f3 = trigger_at(s@, pos2 as int).1;
    let (trigger, pos3) = match trigger_from(s, pos2, fail) {
        Some(x) => x,
        None => {
            proof {
                lemma_merge_assoc(f0, f2, f3);
            }
            return None;
        },
    };
    proof {
        lemma_merge_assoc(f0, f2, f3);
    }
    let ghost f4 = sep_at(s@, pos3 as int).1;
    let pos4 = match whitespace_separator(s, pos3, fail) {
        Some(x) => x,
        None => {
            proof {
                lemma_merge_assoc(f0, merge(f2, f3), f4);
            }
            return None;
        },
    };
    proof {
        lemma_merge_assoc(f0, merge(f2, f3), f4);
    }
    let ghost f234 = merge(merge(f2, f3), f4);
    if !(pos4 < n && s[pos4] == '{') {
        fail.note(pos4, Expected::BlockStart);
        proof {
            lemma_merge_assoc(f0, f234, stop(pos4 as int, Expected::BlockStart));
        }
        return None;
    }
    let ghost f5 = collection_at(s@, pos4 + 1).1;
    let (maps, pos5) = match map_collection_from(text, s, pos4 + 1, fail) {
        Some(x) => x,
        None => {
            proof {
                lemma_merge_assoc(f0, f234, f5);
            }
            return None;
        },
    };
    proof {
        lemma_merge_assoc(f0, f234, f5);
    }
    if pos5 < n && s[pos5] == '}' {
        Some((Mode { trigger, maps }, pos5 + 1))
    } else {
        fail.note(pos5, Expected::BlockEnd);
        proof {
            lemma_merge_assoc(f0, merge(f234, f5), stop(pos5 as int, Expected::BlockEnd));
        }
        None
    }
}

/// A top-level declaration at `i`, and where it ends.
fn definition_from(text: &str, s: &Vec<char>, i: usize, fail: &mut Failure) -> (r: Option<(Definition, usize)>)
    requires
        s@ == text@,
        i <= s@.len(),
        old(fail).pos <= s@.len(),
    ensures
        match definition_at(s@, i as int).0 {
            Some((dv, e)) => r matches Some((d, e2)) && e2 == e && d@ == dv && d.wf() && i < e2 <= s@.len(),
            None => r is None,
        },
        final(fail)@ == merge(old(fail)@, definition_at(s@, i as int).1),
        final(fail).pos <= s@.len(),
{
    let ghost f0 = fail@;
    if let Some((m, e)) = mapping_from(text, s, i, fail) {
        return Some((Definition::Mapping(m), e));
    }
    let r = mode_from(text, s, i, fail);
    proof {
        lemma_merge_assoc(f0, mapping_at(s@, i as int).1, mode_at(s@, i as int).1);
    }
    match r {
        Some((m, e)) => Some((Definition::Mode(m), e)),
        None => None,
    }
}

/// Blanks, then one or more top-level declarations, each followed by blanks,
/// at `i`; and where they end.
#[verifier::rlimit(40)]
fn definitions_list(text: &str, s: &Vec<char>, i: usize, fail: &mut Failure) -> (r: Option<(Vec<Definition>, usize)>)
    requires
        s@ == text@,
        i <= s@.len(),
        old(fail).pos <= s@.len(),
    ensures
        match definitions_at(s@, i as int).0 {
            Some((ds, e)) => r matches Some((v, e2)) && e2 == e && e2 <= s@.len() && v@.len() == ds.len()
                && forall|k: int| 0 <= k < ds.len() ==> (#[trigger] v@[k])@ == ds[k] && v@[k].wf(),
            None => r is None,
        },
        final(fail)@ == merge(old(fail)@, definitions_at(s@, i as int).1),
        final(fail).pos <= s@.len(),
{
    let ghost f0 = fail@;
    let b = blank_from(s, i, fail);
    proof {
        lemma_merge_assoc(f0, blank_stop(b as int), definitions_from(s@, b as int).2);
    }
    let mut out: Vec<Definition> = Vec::new();
    let ghost mut acc: Seq<DefinitionView> = Seq::empty();
    let mut j = b;
    loop
        invariant
            s@ == text@,
            b <= j <= s@.len(),
            b == blank_end(s@, i as int),
            fail.pos <= s@.len(),
            out@.len() == acc.len(),
            forall|k: int| 0 <= k < acc.len() ==> (#[trigger] out@[k])@ == acc[k] && out@[k].wf(),
            definitions_from(s@, b as int).0 == acc + definitions_from(s@, j as int).0,
            definitions_from(s@, b as int).1 == definitions_from(s@, j as int).1,
            merge(old(fail)@, merge(blank_stop(b as int), definitions_from(s@, b as int).2)) == merge(
                fail@,
                definitions_from(s@, j as int).2,
            ),
        decreases s@.len() - j,
    {
        let ghost f1 = fail@;
        match definition_from(text, s, j, fail) {
            Some((d, e)) => {
                let nb = blank_from(s, e, fail);
                let ghost dv = d@;
                proof {
                    let fd = definition_at(s@, j as int).1;
                    let bs = blank_stop(nb as int);
                    lemma_merge_assoc(f1, merge(fd, bs), definitions_from(s@, nb as int).2);
                    lemma_merge_assoc(f1, fd, bs);
                    let rest = definitions_from(s@, nb as int).0;
                    assert(acc + (seq![dv] + rest) =~= acc.push(dv) + rest);
                }
                out.push(d);
                proof {
                    acc = acc.push(dv);
                }
                j = nb;
            },
            None => {
                assert(acc + Seq::<DefinitionView>::empty() =~= acc);
                if out.len() > 0 {
                    return Some((out, j));
                } else {
                    return None;
                }
            },
        }
    }
}


/// Reads the kind word at the start of `text`: `map` or `cmd`.
pub fn map_kind(text: &str) -> (r: Result<MapKind, ParseError>)
    requires
        text@.len() < usize::MAX,
    ensures
        match map_kind_at(text@, 0).0 {
            Some((v, _)) => r matches Ok(x) && x == v,
            None => r matches Err(e) && reports(e, text@, merge(no_stop(), map_kind_at(text@, 0).1)),
        },
{
    let s = chars_of(text);
    let mut fail = Failure::new();
    match map_kind_from(&s, 0, &mut fail) {
        Some((v, _)) => Ok(v),
        None => Err(fail.into_error(&s)),
    }
}

/// Reads a button token at the start of `text`.
pub fn headphone_button(text: &str) -> (r: Result<HeadphoneButton, ParseError>)
    requires
        text@.len() < usize::MAX,
    ensures
        match button_at(text@, 0).0 {
            Some((v, _)) => r matches Ok(x) && x == v,
            None => r matches Err(e) && reports(e, text@, merge(no_stop(), button_at(text@, 0).1)),
        },
{
    let s = chars_of(text);
    let mut fail = Failure::new();
    match headphone_button_at(&s, 0, &mut fail) {
        Some((v, _)) => Ok(v),
        None => Err(fail.into_error(&s)),
    }
}

/// Reads a trigger at the start of `text`.
pub fn trigger(text: &str) -> (r: Result<Vec<HeadphoneButton>, ParseError>)
    requires
        text@.len() < usize::MAX,
    ensures
        match trigger_at(text@, 0).0 {
            Some((v, _)) => r matches Ok(x) && x@ == v,
            None => r matches Err(e) && reports(e, text@, merge(no_stop(), trigger_at(text@, 0).1)),
        },
{
    let s = chars_of(text);
    let mut fail = Failure::new();
    match trigger_from(&s, 0, &mut fail) {
        Some((v, _)) => Ok(v),
        None => Err(fail.into_error(&s)),
    }
}

/// Reads the text of an action at the start of `text`, up to a line break
/// that must follow.
pub fn action(text: &str) -> (r: Result<Action, ParseError>)
    requires
        text@.len() < usize::MAX,
    ensures
        match line_at(text@, 0).0 {
            Some((v, _)) => r matches Ok(x) && x@ == ActionView::String(v),
            None => r matches Err(e) && reports(e, text@, merge(no_stop(), line_at(text@, 0).1)),
        },
{
    let s = chars_of(text);
    let mut fail = Failure::new();
    match action_from(text, &s, 0, &mut fail) {
        Some((v, _)) => Ok(Action::String(v)),
        None => Err(fail.into_error(&s)),
    }
}

/// Reads a `map` or `cmd` declaration at the start of `text`.
pub fn map(text: &str) -> (r: Result<Mapping, ParseError>)
    requires
        text@.len() < usize::MAX,
    ensures
        match mapping_at(text@, 0).0 {
            Some((v, _)) => r matches Ok(x) && x@ == v,
            None => r matches Err(e) && reports(e, text@, merge(no_stop(), mapping_at(text@, 0).1)),
        },
{
    let s = chars_of(text);
    let mut fail = Failure::new();
    match mapping_from(text, &s, 0, &mut fail) {
        Some((v, _)) => Ok(v),
        None => Err(fail.into_error(&s)),
    }
}

/// Reads declarations, each followed by blanks, at the start of `text`,
/// into a table in which a later declaration of a trigger replaces an earlier
/// one.
pub fn maps(text: &str) -> (r: Result<MapCollection, ParseError>)
    requires
        text@.len() < usize::MAX,
    ensures
        match maps_at(text@, 0).0 {
            Some((v, _)) => r matches Ok(x) && x@ == table_of(v) && x.wf(),
            None => r matches Err(e) && reports(e, text@, merge(no_stop(), maps_at(text@, 0).1)),
        },
{
    let s = chars_of(text);
    let mut fail = Failure::new();
    match maps_from(text, &s, 0, &mut fail) {
        Some((v, _)) => Ok(v),
        None => Err(fail.into_error(&s)),
    }
}

/// Reads blanks and then declarations at the start of `text` into a table.
pub fn map_collection(text: &str) -> (r: Result<MapCollection, ParseError>)
    requires
        text@.len() < usize::MAX,
    ensures
        match collection_at(text@, 0).0 {
            Some((v, _)) => r matches Ok(x) && x@ == table_of(v) && x.wf(),
            None => r matches Err(e) && reports(e, text@, merge(no_stop(), collection_at(text@, 0).1)),
        },
{
    let s = chars_of(text);
    let mut fail = Failure::new();
    match map_collection_from(text, &s, 0, &mut fail) {
        Some((v, _)) => Ok(v),
        None => Err(fail.into_error(&s)),
    }
}

/// Reads a mode block at the start of `text`.
pub fn mode(text: &str) -> (r: Result<Mode, ParseError>)
    requires
        text@.len() < usize::MAX,
    ensures
        match mode_at(text@, 0).0 {
            Some((v, _)) => r matches Ok(x) && x@ == v && x.maps.wf(),
            None => r matches Err(e) && reports(e, text@, merge(no_stop(), mode_at(text@, 0).1)),
        },
{
    let s = chars_of(text);
    let mut fail = Failure::new();
    match mode_from(text, &s, 0, &mut fail) {
        Some((v, _)) => Ok(v),
        None => Err(fail.into_error(&s)),
    }
}

/// Reads blanks and then top-level declarations at the start of `text`.
pub fn definitions(text: &str) -> (r: Result<Vec<Definition>, ParseError>)
    requires
        text@.len() < usize::MAX,
    ensures
        match definitions_at(text@, 0).0 {
            Some((ds, _)) => r matches Ok(x) && x@.len() == ds.len() && forall|k: int|
                0 <= k < ds.len() ==> (#[trigger] x@[k])@ == ds[k] && x@[k].wf(),
            None => r matches Err(e) && reports(e, text@, merge(no_stop(), definitions_at(text@, 0).1)),
        },
{
    let s = chars_of(text);
    let mut fail = Failure::new();
    match definitions_list(text, &s, 0, &mut fail) {
        Some((v, _)) => Ok(v),
        None => Err(fail.into_error(&s)),
    }
}

/// Reads a whole mapping file. A text of blanks and comments alone gives the
/// default group; otherwise the declarations are applied in order to the
/// default group. The actions are left as text.
pub fn map_group(text: &str) -> (r: Result<MapGroup, ParseError>)
    requires
        text@.len() < usize::MAX,
    ensures
        match group_of(text@) {
            Ok(g) => r matches Ok(x) && x@ == g && x.wf(),
            Err(p) => r matches Err(e) && reports(e, text@, merge(no_stop(), p)),
        },
{
    let s = chars_of(text);
    let mut fail = Failure::new();
    let b = blank_from(&s, 0, &mut fail);
    if b == s.len() {
        return Ok(MapGroup::new_default());
    }
    fail.note(b, Expected::EndOfInput);
    let ghost blanks_only = merge(blank_stop(b as int), stop(b as int, Expected::EndOfInput));
    let ghost f = definitions_at(s@, 0).1;
    proof {
        lemma_merge_assoc(no_stop(), blank_stop(b as int), stop(b as int, Expected::EndOfInput));
        lemma_merge_assoc(no_stop(), blanks_only, f);
    }
    match definitions_list(text, &s, 0, &mut fail) {
        Some((defs, e)) => {
            if e == s.len() {
                let ghost ds = definitions_at(s@, 0).0.unwrap().0;
                let mut g = MapGroup::new_default();
                let mut rest = defs;
                let ghost mut k: int = 0;
                while rest.len() > 0
                    invariant
                        g.wf(),
                        0 <= k <= ds.len(),
                        g@ == apply_definitions(default_group(), ds.subrange(0, k)),
                        rest@.len() + k == ds.len(),
                        forall|t: int| 0 <= t < rest@.len() ==> (#[trigger] rest@[t])@ == ds[k + t] && rest@[t].wf(),
                    decreases rest@.len(),
                {
                    let ghost before = rest@;
                    let d = rest.remove(0);
                    proof {
                        assert(ds.subrange(0, k + 1).drop_last() =~= ds.subrange(0, k));
                        assert forall|t: int| 0 <= t < rest@.len() implies (#[trigger] rest@[t])@ == ds[k + 1 + t] && rest@[t].wf() by {
                            assert(rest@[t] == before[t + 1]);
                        }
                    }
                    g.apply(d);
                    proof {
                        k = k + 1;
                    }
                }
                assert(ds.subrange(0, k) =~= ds);
                Ok(g)
            } else {
                fail.note(e, Expected::EndOfInput);
                proof {
                    lemma_merge_assoc(no_stop(), merge(blanks_only, f), stop(e as int, Expected::EndOfInput));
                }
                Err(fail.into_error(&s))
            }
        },
        None => Err(fail.into_error(&s)),
    }
}

impl MapGroup {
    /// Reads a whole mapping file; see `map_group`.
    pub fn parse(mappings: &str) -> (r: Result<MapGroup, ParseError>)
        requires
            mappings@.len() < usize::MAX,
        ensures
            match group_of(mappings@) {
                Ok(g) => r matches Ok(x) && x@ == g && x.wf(),
                Err(p) => r matches Err(e) && reports(e, mappings@, merge(no_stop(), p)),
            },
    {
        map_group(mappings)
    }
}

/// Reads a whole mapping file and resolves every `map` action into
/// keystrokes.
pub fn load(text: &str) -> (r: Result<MapGroup, ParseError>)
    requires
        text@.len() < usize::MAX,
    ensures
        match group_of(text@) {
            Ok(g) => r matches Ok(x) && x@ == resolved_group(g) && x.wf(),
            Err(p) => r matches Err(e) && reports(e, text@, merge(no_stop(), p)),
        },
{
    match map_group(text) {
        Ok(mut g) => {
            g.parse_actions();
            Ok(g)
        },
        Err(e) => Err(e),
    }
}

} // verus!
