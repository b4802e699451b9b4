//! iCalendar (RFC 5545) and vCard (RFC 6350) components as flat property
//! maps: reading one component out of a text, and writing an event, a task or
//! a contact back.
use vstd::prelude::*;
use vstd::string::*;

use crate::props::{insert, lookup, Props, PropsModel};
use crate::text::{
    chars_of, concat2, concat3, find, find_from, find_from_exec, lemma_next_char_at_bounds, lines_from,
    lit, next_char_at, next_char_exec, remove_all, remove_all_exec, same_text, str_lines,
    string_of, strip_cr, to_uppercase, trim, trim_bounds, upper_of,
};

verus! {

broadcast use vstd::string::group_string_axioms;

// ---------------------------------------------------------------------------
// Reading a component
// ---------------------------------------------------------------------------

/// The text with folded lines joined again: every line break followed by a
/// space or a tab is taken out, first `"\r\n "`, then `"\r\n\t"`, then
/// `"\n "`, then `"\n\t"`.
pub open spec fn unfold(s: Seq<char>) -> Seq<char> {
    remove_all(
        remove_all(remove_all(remove_all(s, "\r\n "@), "\r\n\t"@), "\n "@),
        "\n\t"@,
    )
}

/// The part of a property name before its first `;` (its parameters follow).
pub open spec fn key_base(key_part: Seq<char>) -> Seq<char> {
    key_part.take(next_char_at(key_part, ';', 0) as int)
}

/// One content line read into the map: the trimmed line, when it is not
/// empty and holds a `:`, stores what follows the first `:` under the upper
/// case of the name before it, parameters left out.
pub open spec fn apply_line(m: PropsModel, line: Seq<char>) -> PropsModel {
    let t = trim(line);
    let c = next_char_at(t, ':', 0);
    if t.len() > 0 && c < t.len() {
        insert(m, upper_of(key_base(t.take(c as int))), t.skip((c + 1) as int))
    } else {
        m
    }
}

/// The lines read into the map one after the other.
pub open spec fn apply_lines(m: PropsModel, lines: Seq<Seq<char>>) -> PropsModel
    decreases lines.len(),
{
    if lines.len() == 0 {
        m
    } else {
        apply_lines(apply_line(m, lines[0]), lines.drop_first())
    }
}

/// The line that opens a component.
pub open spec fn begin_marker(component: Seq<char>) -> Seq<char> {
    "BEGIN:"@ + component
}

/// The line that closes a component.
pub open spec fn end_marker(component: Seq<char>) -> Seq<char> {
    "END:"@ + component
}

/// The unfolded text between the first `BEGIN:<component>` of `ical` and the
/// first `END:<component>` after it; nothing where either marker is missing.
pub open spec fn body_of(ical: Seq<char>, component: Seq<char>) -> Option<Seq<char>> {
    let u = unfold(ical);
    let b = begin_marker(component);
    match find(u, b) {
        None => None,
        Some(i) => match find_from(u, end_marker(component), i + b.len()) {
            None => None,
            Some(e) => Some(u.subrange((i + b.len()) as int, e as int)),
        },
    }
}

/// The properties of the first `component` in `ical`: the lines of its body
/// (see `body_of`) read one after the other; empty where it has none.
pub open spec fn component_props(ical: Seq<char>, component: Seq<char>) -> PropsModel {
    match body_of(ical, component) {
        None => Seq::empty(),
        Some(b) => apply_lines(Seq::empty(), str_lines(b)),
    }
}

/// A copy of `v[a..b]`.
fn copy_range(v: &Vec<char>, a: usize, b: usize) -> (r: Vec<char>)
    requires
        a <= b <= v@.len(),
    ensures
        r@ == v@.subrange(a as int, b as int),
{
    let mut r: Vec<char> = Vec::new();
    let mut i = a;
    while i < b
        invariant
            a <= i <= b <= v@.len(),
            r@ == v@.subrange(a as int, i as int),
        decreases b - i,
    {
        r.push(v[i]);
        assert(v@.subrange(a as int, i + 1) =~= v@.subrange(a as int, i as int).push(v@[i as int]));
        i = i + 1;
    }
    r
}

/// Reads the content line `v[a..b]` into `props`.
fn read_line_into(props: &mut Props, v: &Vec<char>, a: usize, b: usize)
    requires
        a <= b <= v@.len(),
    ensures
        final(props)@ == apply_line(old(props)@, v@.subrange(a as int, b as int)),
{
    let (ta, tb) = trim_bounds(v, a, b);
    let t = copy_range(v, ta, tb);
    if t.len() == 0 {
        return ;
    }
    let c = next_char_exec(&t, ':', 0);
    if c >= t.len() {
        return ;
    }
    let kp = copy_range(&t, 0, c);
    let s = next_char_exec(&kp, ';', 0);
    proof {
        lemma_next_char_at_bounds(kp@, ';', 0);
        lemma_next_char_at_bounds(t@, ':', 0);
    }
    let base = string_of(&kp, 0, s);
    assert(base@ == key_base(t@.take(c as int))) by {
        assert(kp@ =~= t@.take(c as int));
        assert(kp@.subrange(0, s as int) =~= kp@.take(s as int));
    }
    let key = to_uppercase(base.as_str());
    let value = string_of(&t, c + 1, t.len());
    assert(value@ =~= t@.skip(c + 1));
    props.insert(key, value);
}

/// Reads every line of `v[lo..hi]` into `props`.
fn read_lines_into(props: &mut Props, body: &Vec<char>)
    ensures
        final(props)@ == apply_lines(old(props)@, str_lines(body@)),
{
    let mut i: usize = 0;
    while i < body.len()
        invariant
            i <= body@.len(),
            apply_lines(old(props)@, str_lines(body@)) == apply_lines(
                props@,
                lines_from(body@, i as nat),
            ),
        decreases body@.len() - i,
    {
        let j = next_char_exec(body, '\n', i);
        proof {
            lemma_next_char_at_bounds(body@, '\n', i as nat);
        }
        let ghost rest = lines_from(body@, i as nat);
        if j < body.len() {
            let e = if j > i && body[j - 1] == '\r' {
                j - 1
            } else {
                j
            };
            assert(body@.subrange(i as int, e as int) == strip_cr(
                body@.subrange(i as int, j as int),
            )) by {
                if j > i && body@[j - 1] == '\r' {
                    assert(body@.subrange(i as int, j as int).drop_last() =~= body@.subrange(
                        i as int,
                        j - 1,
                    ));
                }
            }
            read_line_into(props, body, i, e);
            assert(rest.drop_first() =~= lines_from(body@, (j + 1) as nat));
            i = j + 1;
        } else {
            read_line_into(props, body, i, body.len());
            assert(rest.drop_first() =~= Seq::<Seq<char>>::empty());
            i = body.len();
            assert(lines_from(body@, i as nat) =~= Seq::<Seq<char>>::empty());
        }
    }
}

/// The body of the first `component` in an iCalendar or vCard text (see
/// `body_of`).
fn component_body(ical: &str, component: &str) -> (r: Option<Vec<char>>)
    ensures
        match r {
            Some(b) => body_of(ical@, component@) == Some(b@),
            None => body_of(ical@, component@) is None,
        },
{
    proof {
        reveal_strlit("\r\n ");
        reveal_strlit("\r\n\t");
        reveal_strlit("\n ");
        reveal_strlit("\n\t");
    }
    let v = chars_of(ical);
    let u = remove_all_exec(&v, &chars_of("\r\n "));
    let u = remove_all_exec(&u, &chars_of("\r\n\t"));
    let u = remove_all_exec(&u, &chars_of("\n "));
    let u = remove_all_exec(&u, &chars_of("\n\t"));
    let begin = chars_of(concat2("BEGIN:", component).as_str());
    let end = chars_of(concat2("END:", component).as_str());
    assert(begin@ =~= begin_marker(component@));
    assert(end@ =~= end_marker(component@));
    let i = match find_from_exec(&u, &begin, 0) {
        Some(i) => i,
        None => {
            return None;
        },
    };
    let start = i + begin.len();
    let e = match find_from_exec(&u, &end, start) {
        Some(e) => e,
        None => {
            return None;
        },
    };
    Some(copy_range(&u, start, e))
}

/// The properties of the first `component` (such as `VEVENT`, `VTODO` or
/// `VCARD`) in an iCalendar or vCard text, by their upper-case names without
/// parameters, in the order in which the names first occur; a name that
/// occurs again takes the later value.  Empty where the component's
/// `BEGIN:` or `END:` line is missing.
pub fn parse_ical_component(ical: &str, component: &str) -> (props: Props)
    ensures
        props@ == component_props(ical@, component@),
{
    let mut props = Props::new();
    match component_body(ical, component) {
        Some(body) => {
            read_lines_into(&mut props, &body);
        },
        None => {},
    }
    props
}

// ---------------------------------------------------------------------------
// Writing a component
// ---------------------------------------------------------------------------

/// A content line `NAME:value`.
pub open spec fn prop_line(k: Seq<char>, v: Seq<char>) -> Seq<char> {
    k + ":"@ + v
}

/// For each name of `ks` in turn, the line of its value in `m`, where it has
/// a non-empty one.
pub open spec fn fixed_lines(m: PropsModel, ks: Seq<Seq<char>>) -> Seq<Seq<char>>
    decreases ks.len(),
{
    if ks.len() == 0 {
        Seq::empty()
    } else {
        let rest = fixed_lines(m, ks.drop_last());
        match lookup(m, ks.last()) {
            Some(v) => if v.len() > 0 {
                rest.push(prop_line(ks.last(), v))
            } else {
                rest
            },
            None => rest,
        }
    }
}

/// The name a trimmed content line stores its value under: the upper case of
/// what precedes its first `:`, parameters left out; nothing where the line
/// is empty or holds no `:`.
pub open spec fn line_key(t: Seq<char>) -> Option<Seq<char>> {
    let c = next_char_at(t, ':', 0);
    if t.len() > 0 && c < t.len() {
        Some(upper_of(key_base(t.take(c as int))))
    } else {
        None
    }
}

/// The lines of a component body that a rewrite keeps as they are, each
/// trimmed, in order: every line of a nested component (from its `BEGIN`
/// line to its `END` line), and every other line with a name that is not in
/// `listed` and is not `END`.  Left out besides: empty lines, lines without a
/// name outside nested components, and lines that hold a carriage return or
/// the `end` marker.  `depth` counts the nested components open.
pub open spec fn kept_from(
    ls: Seq<Seq<char>>,
    depth: nat,
    listed: Seq<Seq<char>>,
    end: Seq<char>,
) -> Seq<Seq<char>>
    decreases ls.len(),
{
    if ls.len() == 0 {
        Seq::empty()
    } else {
        let t = trim(ls[0]);
        let rest = ls.drop_first();
        if t.len() == 0 || !crate::roundtrip::clean_line(t) || find(t, end) is Some {
            kept_from(rest, depth, listed, end)
        } else if line_key(t) == Some("BEGIN"@) {
            seq![t] + kept_from(rest, depth + 1, listed, end)
        } else if depth > 0 {
            if line_key(t) == Some("END"@) {
                seq![t] + kept_from(rest, (depth - 1) as nat, listed, end)
            } else {
                seq![t] + kept_from(rest, depth, listed, end)
            }
        } else {
            match line_key(t) {
                Some(k) => if k == "END"@ || listed.contains(k) {
                    kept_from(rest, depth, listed, end)
                } else {
                    seq![t] + kept_from(rest, depth, listed, end)
                },
                None => kept_from(rest, depth, listed, end),
            }
        }
    }
}

/// The lines of the first `component` in `ical` that a rewrite with the
/// properties `listed` keeps (see `kept_from`).
pub open spec fn kept_lines(ical: Seq<char>, component: Seq<char>, listed: Seq<Seq<char>>) -> Seq<
    Seq<char>,
> {
    match body_of(ical, component) {
        None => Seq::empty(),
        Some(b) => kept_from(str_lines(b), 0, listed, end_marker(component)),
    }
}

/// Lines joined with `sep` between them.
pub open spec fn join_lines(ls: Seq<Seq<char>>, sep: Seq<char>) -> Seq<char>
    decreases ls.len(),
{
    if ls.len() == 0 {
        Seq::empty()
    } else if ls.len() == 1 {
        ls[0]
    } else {
        join_lines(ls.drop_last(), sep) + sep + ls.last()
    }
}

/// The line separator of iCalendar and vCard text.
pub open spec fn crlf() -> Seq<char> {
    "\r\n"@
}

/// A component written out: the header lines, the `kept` lines, the lines
/// of the listed names in their order, the footer lines, joined with CRLF.
/// The listed lines come last, so that reading the text gives the listed
/// names the values written for them.
pub open spec fn component_text(
    header: Seq<Seq<char>>,
    keys: Seq<Seq<char>>,
    kept: Seq<Seq<char>>,
    footer: Seq<Seq<char>>,
    m: PropsModel,
) -> Seq<char> {
    join_lines(header + kept + fixed_lines(m, keys) + footer, crlf())
}

/// The texts of a list of string slices.
pub open spec fn views(v: Seq<&str>) -> Seq<Seq<char>> {
    v.map_values(|s: &str| s@)
}

/// The texts of a sequence of strings.
pub open spec fn texts(v: Seq<String>) -> Seq<Seq<char>> {
    v.map_values(|s: String| s@)
}

/// Appends a line.
fn push_line(lines: &mut Vec<String>, s: String)
    ensures
        texts(final(lines)@) == texts(old(lines)@).push(s@),
{
    let ghost sv = s@;
    lines.push(s);
    assert(texts(lines@) =~= texts(old(lines)@).push(sv));
}

/// The lines joined with CRLF.
fn join_crlf(lines: &Vec<String>) -> (r: String)
    ensures
        r@ == join_lines(texts(lines@), crlf()),
{
    let ghost ls = texts(lines@);
    let mut r = String::new();
    let mut i: usize = 0;
    while i < lines.len()
        invariant
            i <= lines@.len(),
            ls == texts(lines@),
            r@ == join_lines(ls.take(i as int), crlf()),
        decreases lines@.len() - i,
    {
        assert(ls.take(i + 1).drop_last() =~= ls.take(i as int));
        if i > 0 {
            r.append("\r\n");
        } else {
            assert(ls.take(1) =~= seq![ls[0]]);
        }
        r.append(lines[i].as_str());
        i = i + 1;
    }
    assert(ls.take(lines@.len() as int) =~= ls);
    r
}

/// Whether `k` is one of `names`.
fn is_one_of(k: &str, names: &Vec<&str>) -> (b: bool)
    ensures
        b == views(names@).contains(k@),
{
    let mut i: usize = 0;
    while i < names.len()
        invariant
            i <= names@.len(),
            forall|j: int| 0 <= j < i ==> names@[j]@ != k@,
        decreases names@.len() - i,
    {
        if same_text(names[i], k) {
            assert(views(names@)[i as int] == k@);
            return true;
        }
        i = i + 1;
    }
    proof {
        if views(names@).contains(k@) {
            let j = choose|j: int| 0 <= j < views(names@).len() && views(names@)[j] == k@;
            assert(names@[j]@ == k@);
        }
    }
    false
}

/// Adds the lines of `header` to `lines`.
fn push_literals(lines: &mut Vec<String>, items: &Vec<&str>)
    ensures
        texts(final(lines)@) == texts(old(lines)@) + views(
            items@,
        ),
{
    let ghost start = texts(lines@);
    let mut i: usize = 0;
    while i < items.len()
        invariant
            i <= items@.len(),
            texts(lines@) == start + views(items@).take(i as int),
        decreases items@.len() - i,
    {
        push_line(lines, lit(items[i]));
        assert(views(items@).take(i + 1) =~= views(items@).take(i as int).push(items@[i as int]@));
        assert(texts(lines@) =~= start + views(items@).take(i + 1));
        i = i + 1;
    }
    assert(views(items@).take(items@.len() as int) =~= views(items@));
}

/// A component written out from `props` with the `kept` lines (see
/// `component_text`).
pub fn build_component(
    header: &Vec<&str>,
    keys: &Vec<&str>,
    kept: &Vec<String>,
    footer: &Vec<&str>,
    props: &Props,
) -> (r: String)
    ensures
        r@ == component_text(views(header@), views(keys@), texts(kept@), views(footer@), props@),
{
    let mut lines: Vec<String> = Vec::new();
    assert(texts(lines@) =~= Seq::<Seq<char>>::empty());
    push_literals(&mut lines, header);
    let ghost after_header = texts(lines@);
    let mut j: usize = 0;
    while j < kept.len()
        invariant
            j <= kept@.len(),
            after_header == views(header@),
            texts(lines@) == after_header + texts(kept@).take(j as int),
        decreases kept@.len() - j,
    {
        push_line(&mut lines, kept[j].clone());
        assert(texts(kept@).take(j + 1) =~= texts(kept@).take(j as int).push(kept@[j as int]@));
        assert(texts(lines@) =~= after_header + texts(kept@).take(j + 1));
        j = j + 1;
    }
    assert(texts(kept@).take(kept@.len() as int) =~= texts(kept@));
    let ghost after_kept = texts(lines@);
    let mut i: usize = 0;
    while i < keys.len()
        invariant
            i <= keys@.len(),
            after_kept == views(header@) + texts(kept@),
            texts(lines@) == after_kept + fixed_lines(
                props@,
                views(keys@).take(i as int),
            ),
        decreases keys@.len() - i,
    {
        assert(views(keys@).take(i + 1).drop_last() =~= views(keys@).take(i as int));
        assert(views(keys@).take(i + 1).last() == keys@[i as int]@);
        match props.get(keys[i]) {
            Some(v) => {
                if !v.as_str().is_empty() {
                    push_line(&mut lines, concat3(keys[i], ":", v.as_str()));
                }
            },
            None => {},
        }
        assert(texts(lines@) =~= after_kept + fixed_lines(
            props@,
            views(keys@).take(i + 1),
        ));
        i = i + 1;
    }
    assert(views(keys@).take(keys@.len() as int) =~= views(keys@));
    push_literals(&mut lines, footer);
    let r = join_crlf(&lines);
    assert(texts(lines@) =~= views(header@) + texts(kept@) + fixed_lines(props@, views(keys@))
        + views(footer@));
    r
}

/// The name a trimmed content line stores its value under (see
/// `line_key`).
fn key_of(t: &Vec<char>) -> (r: Option<String>)
    ensures
        match r {
            Some(k) => line_key(t@) == Some(k@),
            None => line_key(t@) is None,
        },
{
    if t.len() == 0 {
        return None;
    }
    let c = next_char_exec(t, ':', 0);
    if c >= t.len() {
        return None;
    }
    let kp = copy_range(t, 0, c);
    let s = next_char_exec(&kp, ';', 0);
    proof {
        lemma_next_char_at_bounds(kp@, ';', 0);
        lemma_next_char_at_bounds(t@, ':', 0);
    }
    let base = string_of(&kp, 0, s);
    assert(base@ == key_base(t@.take(c as int))) by {
        assert(kp@ =~= t@.take(c as int));
        assert(kp@.subrange(0, s as int) =~= kp@.take(s as int));
    }
    Some(to_uppercase(base.as_str()))
}

/// Whether a line holds neither a carriage return nor a line feed.
fn is_clean(t: &Vec<char>) -> (b: bool)
    ensures
        b == crate::roundtrip::clean_line(t@),
{
    let mut i: usize = 0;
    while i < t.len()
        invariant
            i <= t@.len(),
            forall|j: int| 0 <= j < i ==> t@[j] != '\r' && t@[j] != '\n',
        decreases t@.len() - i,
    {
        if t[i] == '\r' || t[i] == '\n' {
            return false;
        }
        i = i + 1;
    }
    true
}

/// The lines of the first `component` in `ical` that a rewrite with the
/// properties `listed` keeps as they are (see `kept_lines`).
pub fn kept_component_lines(ical: &str, component: &str, listed: &Vec<&str>) -> (r: Vec<String>)
    ensures
        texts(r@) == kept_lines(ical@, component@, views(listed@)),
{
    let mut out: Vec<String> = Vec::new();
    assert(texts(out@) =~= Seq::<Seq<char>>::empty());
    let body = match component_body(ical, component) {
        Some(b) => b,
        None => {
            return out;
        },
    };
    let end = chars_of(concat2("END:", component).as_str());
    proof {
        reveal_strlit("END:");
        reveal_strlit("BEGIN");
        reveal_strlit("END");
    }
    assert(end@ =~= end_marker(component@));
    let ghost lst = views(listed@);
    let mut depth: usize = 0;
    let mut i: usize = 0;
    assert(kept_from(str_lines(body@), 0, lst, end@) == texts(out@) + kept_from(
        lines_from(body@, 0),
        0,
        lst,
        end@,
    ));
    while i < body.len()
        invariant
            i <= body@.len(),
            depth <= i,
            lst == views(listed@),
            kept_from(str_lines(body@), 0, lst, end@) == texts(out@) + kept_from(
                lines_from(body@, i as nat),
                depth as nat,
                lst,
                end@,
            ),
        decreases body@.len() - i,
    {
        let j = next_char_exec(&body, '\n', i);
        proof {
            lemma_next_char_at_bounds(body@, '\n', i as nat);
        }
        let ghost rest = lines_from(body@, i as nat);
        let e = if j < body.len() && j > i && body[j - 1] == '\r' {
            j - 1
        } else {
            j
        };
        let next = if j < body.len() {
            j + 1
        } else {
            body.len()
        };
        assert(rest[0] == body@.subrange(i as int, e as int)) by {
            if j < body.len() && j > i && body@[j - 1] == '\r' {
                assert(body@.subrange(i as int, j as int).drop_last() =~= body@.subrange(
                    i as int,
                    j - 1,
                ));
            }
        }
        assert(rest.drop_first() == lines_from(body@, next as nat)) by {
            if j < body.len() {
                assert(rest.drop_first() =~= lines_from(body@, (j + 1) as nat));
            } else {
                assert(rest.drop_first() =~= Seq::<Seq<char>>::empty());
                assert(lines_from(body@, next as nat) =~= Seq::<Seq<char>>::empty());
            }
        }
        let (ta, tb) = trim_bounds(&body, i, e);
        let t = copy_range(&body, ta, tb);
        if t.len() == 0 || !is_clean(&t) || find_from_exec(&t, &end, 0).is_some() {
        } else {
            let k = key_of(&t);
            let is_begin = match &k {
                Some(k) => same_text(k.as_str(), "BEGIN"),
                None => false,
            };
            let is_end = match &k {
                Some(k) => same_text(k.as_str(), "END"),
                None => false,
            };
            if is_begin {
                push_line(&mut out, string_of(&t, 0, t.len()));
                depth = depth + 1;
            } else if depth > 0 {
                push_line(&mut out, string_of(&t, 0, t.len()));
                if is_end {
                    depth = depth - 1;
                }
            } else {
                match &k {
                    Some(kk) => {
                        if !is_end && !is_one_of(kk.as_str(), listed) {
                            push_line(&mut out, string_of(&t, 0, t.len()));
                        }
                    },
                    None => {},
                }
            }
        }
        assert(t@.subrange(0, t@.len() as int) =~= t@);
        assert(kept_from(str_lines(body@), 0, lst, end@) =~= texts(out@) + kept_from(
            lines_from(body@, next as nat),
            depth as nat,
            lst,
            end@,
        ));
        i = next;
    }
    out
}

// ---------------------------------------------------------------------------
// Events, tasks and contacts
// ---------------------------------------------------------------------------

/// The properties an event is written with, in this order.
pub open spec fn event_keys() -> Seq<Seq<char>> {
    seq![
        "UID"@,
        "DTSTART"@,
        "DTEND"@,
        "SUMMARY"@,
        "DESCRIPTION"@,
        "LOCATION"@,
        "DTSTAMP"@,
        "LAST-MODIFIED"@,
        "SEQUENCE"@,
        "STATUS"@,
    ]
}

/// The properties a task is written with, in this order.
pub open spec fn task_keys() -> Seq<Seq<char>> {
    seq![
        "UID"@,
        "SUMMARY"@,
        "DESCRIPTION"@,
        "DUE"@,
        "STATUS"@,
        "PRIORITY"@,
        "DTSTAMP"@,
        "LAST-MODIFIED"@,
        "SEQUENCE"@,
    ]
}

/// The properties a contact is written with, in this order.
pub open spec fn vcard_keys() -> Seq<Seq<char>> {
    seq!["UID"@, "FN"@, "EMAIL"@, "TEL"@, "ORG"@, "NOTE"@, "REV"@]
}

/// The lines that open a calendar object holding one `component`.
pub open spec fn calendar_header(component: Seq<char>) -> Seq<Seq<char>> {
    seq!["BEGIN:VCALENDAR"@, "VERSION:2.0"@, "PRODID:-//caldav-mcp-rs//EN"@, begin_marker(component)]
}

/// The lines that close a calendar object holding one `component`.
pub open spec fn calendar_footer(component: Seq<char>) -> Seq<Seq<char>> {
    seq![end_marker(component), "END:VCALENDAR"@]
}

/// The lines that open a vCard.
pub open spec fn vcard_header() -> Seq<Seq<char>> {
    seq!["BEGIN:VCARD"@, "VERSION:3.0"@]
}

/// The line that closes a vCard.
pub open spec fn vcard_footer() -> Seq<Seq<char>> {
    seq!["END:VCARD"@]
}

/// Names that only the structure of a component may write.
pub open spec fn structure_names() -> Seq<Seq<char>> {
    seq!["BEGIN"@, "END"@]
}

/// The names a rewritten contact writes itself: its listed properties and
/// `VERSION`, which the header writes.
pub open spec fn vcard_written() -> Seq<Seq<char>> {
    vcard_keys() + seq!["VERSION"@]
}

/// The text of an event: the listed properties, then the `kept` lines (see
/// `component_text`).
pub open spec fn event_text(m: PropsModel, kept: Seq<Seq<char>>) -> Seq<char> {
    component_text(calendar_header("VEVENT"@), event_keys(), kept, calendar_footer("VEVENT"@), m)
}

/// The text of a task (see `component_text`).
pub open spec fn task_text(m: PropsModel, kept: Seq<Seq<char>>) -> Seq<char> {
    component_text(calendar_header("VTODO"@), task_keys(), kept, calendar_footer("VTODO"@), m)
}

/// The text of a contact (see `component_text`).
pub open spec fn vcard_text(m: PropsModel, kept: Seq<Seq<char>>) -> Seq<char> {
    component_text(vcard_header(), vcard_keys(), kept, vcard_footer(), m)
}

/// Writes an event (`VEVENT` inside a `VCALENDAR`) with CRLF line ends:
/// `UID`, `DTSTART`, `DTEND`, `SUMMARY`, `DESCRIPTION`, `LOCATION`,
/// `DTSTAMP`, `LAST-MODIFIED`, `SEQUENCE`, `STATUS` in this order where they
/// have a non-empty value, after the `kept` lines as they are.
pub fn build_event_ical_keeping(props: &Props, kept: &Vec<String>) -> (r: String)
    ensures
        r@ == event_text(props@, texts(kept@)),
{
    let header = vec!["BEGIN:VCALENDAR", "VERSION:2.0", "PRODID:-//caldav-mcp-rs//EN", "BEGIN:VEVENT"];
    let keys = vec![
        "UID",
        "DTSTART",
        "DTEND",
        "SUMMARY",
        "DESCRIPTION",
        "LOCATION",
        "DTSTAMP",
        "LAST-MODIFIED",
        "SEQUENCE",
        "STATUS",
    ];
    let footer = vec!["END:VEVENT", "END:VCALENDAR"];
    proof {
        reveal_strlit("BEGIN:VEVENT");
        reveal_strlit("BEGIN:");
        reveal_strlit("VEVENT");
        reveal_strlit("END:VEVENT");
        reveal_strlit("END:");
    }
    assert(begin_marker("VEVENT"@) =~= "BEGIN:VEVENT"@);
    assert(end_marker("VEVENT"@) =~= "END:VEVENT"@);
    assert(views(header@) =~= calendar_header("VEVENT"@));
    assert(views(keys@) =~= event_keys());
    assert(views(footer@) =~= calendar_footer("VEVENT"@));
    build_component(&header, &keys, kept, &footer, props)
}

/// Writes an event with its listed properties alone (see
/// `build_event_ical_keeping`).
pub fn build_event_ical(props: &Props) -> (r: String)
    ensures
        r@ == event_text(props@, Seq::empty()),
{
    let kept: Vec<String> = Vec::new();
    assert(texts(kept@) =~= Seq::<Seq<char>>::empty());
    build_event_ical_keeping(props, &kept)
}

/// Writes a task (`VTODO` inside a `VCALENDAR`) with CRLF line ends:
/// `UID`, `SUMMARY`, `DESCRIPTION`, `DUE`, `STATUS`, `PRIORITY`, `DTSTAMP`,
/// `LAST-MODIFIED`, `SEQUENCE` in this order where they have a non-empty
/// value, after the `kept` lines as they are.
pub fn build_task_ical_keeping(props: &Props, kept: &Vec<String>) -> (r: String)
    ensures
        r@ == task_text(props@, texts(kept@)),
{
    let header = vec!["BEGIN:VCALENDAR", "VERSION:2.0", "PRODID:-//caldav-mcp-rs//EN", "BEGIN:VTODO"];
    let keys = vec![
        "UID",
        "SUMMARY",
        "DESCRIPTION",
        "DUE",
        "STATUS",
        "PRIORITY",
        "DTSTAMP",
        "LAST-MODIFIED",
        "SEQUENCE",
    ];
    let footer = vec!["END:VTODO", "END:VCALENDAR"];
    proof {
        reveal_strlit("BEGIN:VTODO");
        reveal_strlit("BEGIN:");
        reveal_strlit("VTODO");
        reveal_strlit("END:VTODO");
        reveal_strlit("END:");
    }
    assert(begin_marker("VTODO"@) =~= "BEGIN:VTODO"@);
    assert(end_marker("VTODO"@) =~= "END:VTODO"@);
    assert(views(header@) =~= calendar_header("VTODO"@));
    assert(views(keys@) =~= task_keys());
    assert(views(footer@) =~= calendar_footer("VTODO"@));
    build_component(&header, &keys, kept, &footer, props)
}

/// Writes a task with its listed properties alone (see
/// `build_task_ical_keeping`).
pub fn build_task_ical(props: &Props) -> (r: String)
    ensures
        r@ == task_text(props@, Seq::empty()),
{
    let kept: Vec<String> = Vec::new();
    assert(texts(kept@) =~= Seq::<Seq<char>>::empty());
    build_task_ical_keeping(props, &kept)
}

/// Writes a contact (vCard 3.0) with CRLF line ends: `UID`, `FN`, `EMAIL`,
/// `TEL`, `ORG`, `NOTE`, `REV` in this order where they have a non-empty
/// value, after the `kept` lines as they are.
pub fn build_vcard_keeping(props: &Props, kept: &Vec<String>) -> (r: String)
    ensures
        r@ == vcard_text(props@, texts(kept@)),
{
    let header = vec!["BEGIN:VCARD", "VERSION:3.0"];
    let keys = vec!["UID", "FN", "EMAIL", "TEL", "ORG", "NOTE", "REV"];
    let footer = vec!["END:VCARD"];
    assert(views(header@) =~= vcard_header());
    assert(views(keys@) =~= vcard_keys());
    assert(views(footer@) =~= vcard_footer());
    build_component(&header, &keys, kept, &footer, props)
}

/// Writes a contact with its listed properties alone (see
/// `build_vcard_keeping`).
pub fn build_vcard(props: &Props) -> (r: String)
    ensures
        r@ == vcard_text(props@, Seq::empty()),
{
    let kept: Vec<String> = Vec::new();
    assert(texts(kept@) =~= Seq::<Seq<char>>::empty());
    build_vcard_keeping(props, &kept)
}

/// The lines an event rewrite keeps from the stored text (see
/// `kept_lines`).
pub fn event_kept_lines(ical: &str) -> (r: Vec<String>)
    ensures
        texts(r@) == kept_lines(ical@, "VEVENT"@, event_keys()),
{
    let listed = vec![
        "UID",
        "DTSTART",
        "DTEND",
        "SUMMARY",
        "DESCRIPTION",
        "LOCATION",
        "DTSTAMP",
        "LAST-MODIFIED",
        "SEQUENCE",
        "STATUS",
    ];
    assert(views(listed@) =~= event_keys());
    kept_component_lines(ical, "VEVENT", &listed)
}

/// The lines a task rewrite keeps from the stored text (see `kept_lines`).
pub fn task_kept_lines(ical: &str) -> (r: Vec<String>)
    ensures
        texts(r@) == kept_lines(ical@, "VTODO"@, task_keys()),
{
    let listed = vec![
        "UID",
        "SUMMARY",
        "DESCRIPTION",
        "DUE",
        "STATUS",
        "PRIORITY",
        "DTSTAMP",
        "LAST-MODIFIED",
        "SEQUENCE",
    ];
    assert(views(listed@) =~= task_keys());
    kept_component_lines(ical, "VTODO", &listed)
}

/// The lines a contact rewrite keeps from the stored text (see
/// `kept_lines`).
pub fn vcard_kept_lines(ical: &str) -> (r: Vec<String>)
    ensures
        texts(r@) == kept_lines(ical@, "VCARD"@, vcard_written()),
{
    let listed = vec!["UID", "FN", "EMAIL", "TEL", "ORG", "NOTE", "REV", "VERSION"];
    assert(views(listed@) =~= vcard_written());
    kept_component_lines(ical, "VCARD", &listed)
}

} // verus!
