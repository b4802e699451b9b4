//! What holds of the library as a whole: written components read back,
//! updates keep what they do not touch, and the like.
use vstd::prelude::*;
use vstd::string::*;

use crate::ical::{
    apply_lines, begin_marker, body_of, calendar_footer, calendar_header, component_props,
    component_text, end_marker, event_keys, event_text, fixed_lines, kept_lines, line_key,
    prop_line, structure_names, task_keys, task_text, vcard_footer, vcard_header, vcard_keys,
    vcard_text, vcard_written,
};
use crate::datetime::{ical_of_iso, is_utc_stamp};
use crate::props::{insert, lookup, unique_keys, PropsModel};
use crate::caldav::{
    contact_of, event_of, events_report, member_url, holds_component, home_url, task_convertible, task_of, tasks_of,
    text_or_empty,
};
use crate::models::opt_text;
use crate::writes::{
    create_contact_outcome, create_event_outcome, create_task_outcome, is_lower_hex, is_uuid_v4, new_contact_props, new_event_props, new_task_props,
    put_opt, put_time, sequence_of, stamped, updated_contact, updated_event, updated_task,
};
use crate::roundtrip::{
    clean_line, good_line, has_text, lemma_apply_prop_line, lemma_component_reads_back, lemma_crlf,
    lemma_kept_good, lemma_kept_same, lemma_lines_leave_key, lemma_lines_same_key,
    lemma_lookup_insert, lemma_read_fixed, lemma_upper_name, line_carries, well_formed_lines,
    writes_back, written_value,
};
use crate::text::{
    decimal, digit_char, digit_value, digits_value, find, is_digit, is_white_space, occurs_at,
    parse_unsigned, str_lines, trim, unsigned_digits, upper_of,
};

verus! {

broadcast use vstd::string::group_string_axioms;

/// `l` lacks `pat` where no position holds the first character of `pat`
/// together with its character `d` further on.
proof fn lemma_lacks_by_pair(l: Seq<char>, pat: Seq<char>, d: int)
    requires
        0 < d < pat.len(),
        forall|q: int| 0 <= q && q + d < l.len() ==> !(#[trigger] l[q] == pat[0] && l[q + d] == pat[d]),
    ensures
        !has_text(l, pat),
{
    if has_text(l, pat) {
        let q = choose|q: int| occurs_at(l, pat, q);
        assert(l.subrange(q, q + pat.len())[0] == l[q]);
        assert(l.subrange(q, q + pat.len())[d] == l[q + d]);
    }
}

/// The lines of a calendar object before the component.
pub open spec fn calendar_preamble() -> Seq<Seq<char>> {
    seq!["BEGIN:VCALENDAR"@, "VERSION:2.0"@, "PRODID:-//caldav-mcp-rs//EN"@]
}

proof fn lemma_calendar_structure(c: Seq<char>)
    requires
        c == "VEVENT"@ || c == "VTODO"@,
    ensures
        calendar_header(c) == calendar_preamble()
            + seq![begin_marker(c)] + Seq::<Seq<char>>::empty(),
        calendar_footer(c) == seq![end_marker(c)] + seq!["END:VCALENDAR"@],
        well_formed_lines(
            calendar_preamble() + seq![
                begin_marker(c),
            ] + Seq::<Seq<char>>::empty() + seq![end_marker(c)] + seq!["END:VCALENDAR"@],
        ),
        forall|i: int|
            0 <= i < 3 ==> !has_text(
                #[trigger] calendar_preamble()[i],
                begin_marker(c),
            ),
{
    reveal_strlit("BEGIN:VCALENDAR");
    reveal_strlit("VERSION:2.0");
    reveal_strlit("PRODID:-//caldav-mcp-rs//EN");
    reveal_strlit("END:VCALENDAR");
    reveal_strlit("BEGIN:");
    reveal_strlit("END:");
    reveal_strlit("VEVENT");
    reveal_strlit("VTODO");
    let pre = calendar_preamble();
    let bm = begin_marker(c);
    let em = end_marker(c);
    let e = Seq::<Seq<char>>::empty();
    assert(calendar_header(c) =~= pre + seq![bm] + e);
    assert(calendar_footer(c) =~= seq![em] + seq!["END:VCALENDAR"@]);
    let ls = pre + seq![bm] + e + seq![em] + seq!["END:VCALENDAR"@];
    assert(ls =~= seq![
        "BEGIN:VCALENDAR"@,
        "VERSION:2.0"@,
        "PRODID:-//caldav-mcp-rs//EN"@,
        bm,
        em,
        "END:VCALENDAR"@,
    ]);
    assert(well_formed_lines(ls));
    lemma_lacks_by_pair(pre[0], bm, 7);
    lemma_lacks_by_pair(pre[1], bm, 1);
    lemma_lacks_by_pair(pre[2], bm, 1);
}

/// Lines that can follow the listed properties of a written `component`:
/// good lines that do not hold its `END:` marker.
pub open spec fn keepable(kept: Seq<Seq<char>>, c: Seq<char>) -> bool {
    forall|i: int| 0 <= i < kept.len() ==> good_line(#[trigger] kept[i]) && !has_text(kept[i], end_marker(c))
}

/// What the header of a written contact reads as: `VERSION` is `3.0`.
pub open spec fn version_header() -> PropsModel {
    insert(Seq::empty(), "VERSION"@, "3.0"@)
}

/// No line of `ls` stores a value under `k`.
pub open spec fn no_line_for(ls: Seq<Seq<char>>, k: Seq<char>) -> bool {
    forall|i: int| 0 <= i < ls.len() ==> line_key(trim(#[trigger] ls[i])) != Some(k)
}

/// Every line of the body of `component` in `ical` trims to a line without
/// a carriage return or a line feed and without the `END:` marker (such a
/// body is kept whole but for its listed properties).
pub open spec fn clean_body(ical: Seq<char>, c: Seq<char>) -> bool {
    match body_of(ical, c) {
        None => true,
        Some(b) => forall|i: int|
            0 <= i < str_lines(b).len() ==> clean_line(trim(#[trigger] str_lines(b)[i])) && find(
                trim(str_lines(b)[i]),
                end_marker(c),
            ) is None,
    }
}

proof fn lemma_keys_upper()
    ensures
        forall|j: int| 0 <= j < event_keys().len() ==> upper_of(#[trigger] event_keys()[j]) == event_keys()[j],
        forall|j: int| 0 <= j < task_keys().len() ==> upper_of(#[trigger] task_keys()[j]) == task_keys()[j],
        forall|j: int| 0 <= j < vcard_keys().len() ==> upper_of(#[trigger] vcard_keys()[j]) == vcard_keys()[j],
        upper_of("VERSION"@) == "VERSION"@,
{
    reveal_strlit("UID");
    reveal_strlit("DTSTART");
    reveal_strlit("DTEND");
    reveal_strlit("SUMMARY");
    reveal_strlit("DESCRIPTION");
    reveal_strlit("LOCATION");
    reveal_strlit("DTSTAMP");
    reveal_strlit("LAST-MODIFIED");
    reveal_strlit("SEQUENCE");
    reveal_strlit("STATUS");
    reveal_strlit("DUE");
    reveal_strlit("PRIORITY");
    reveal_strlit("FN");
    reveal_strlit("EMAIL");
    reveal_strlit("TEL");
    reveal_strlit("ORG");
    reveal_strlit("NOTE");
    reveal_strlit("REV");
    reveal_strlit("VERSION");
    assert forall|j: int| 0 <= j < event_keys().len() implies upper_of(#[trigger] event_keys()[j])
        == event_keys()[j] by {
        lemma_upper_name(event_keys()[j]);
    }
    assert forall|j: int| 0 <= j < task_keys().len() implies upper_of(#[trigger] task_keys()[j])
        == task_keys()[j] by {
        lemma_upper_name(task_keys()[j]);
    }
    assert forall|j: int| 0 <= j < vcard_keys().len() implies upper_of(#[trigger] vcard_keys()[j])
        == vcard_keys()[j] by {
        lemma_upper_name(vcard_keys()[j]);
    }
    lemma_upper_name("VERSION"@);
}

/// A calendar component written with `keys` and `kept` reads back as the
/// kept lines, then the lines of the listed names.
proof fn lemma_calendar_reads(c: Seq<char>, keys: Seq<Seq<char>>, m: PropsModel, kept: Seq<Seq<char>>)
    requires
        c == "VEVENT"@ || c == "VTODO"@,
        writes_back(m, keys, c),
        keepable(kept, c),
    ensures
        component_props(
            component_text(calendar_header(c), keys, kept, calendar_footer(c), m),
            c,
        ) == apply_lines(apply_lines(Seq::empty(), kept), fixed_lines(m, keys)),
{
    lemma_calendar_structure(c);
    let e = Seq::<Seq<char>>::empty();
    assert forall|i: int| 0 <= i < e.len() implies !has_text(#[trigger] e[i], end_marker(c)) by {}
    lemma_component_reads_back(calendar_preamble(), c, e, seq!["END:VCALENDAR"@], keys, kept, m);
    assert(apply_lines(Seq::empty(), e) == Seq::<(Seq<char>, Seq<char>)>::empty());
}

/// What a listed calendar component reads back as: a listed name with a
/// non-empty value gets it back, any other name reads as the kept lines give
/// it (nothing, where no kept line writes it); where the listed values carry
/// back (see `writes_back`) and the kept lines are fit to be written
/// (`keepable`).
proof fn lemma_calendar_lookups(c: Seq<char>, keys: Seq<Seq<char>>, m: PropsModel, kept: Seq<Seq<char>>)
    requires
        c == "VEVENT"@ || c == "VTODO"@,
        writes_back(m, keys, c),
        keepable(kept, c),
        forall|j: int| 0 <= j < keys.len() ==> upper_of(#[trigger] keys[j]) == keys[j],
    ensures
        forall|k: Seq<char>|
            #[trigger] lookup(
                component_props(component_text(calendar_header(c), keys, kept, calendar_footer(c), m), c),
                k,
            ) == if keys.contains(k) && written_value(m, k) is Some {
                written_value(m, k)
            } else {
                lookup(apply_lines(Seq::empty(), kept), k)
            },
        forall|k: Seq<char>|
            no_line_for(kept, k) ==> lookup(apply_lines(Seq::empty(), kept), k) is None,
{
    lemma_calendar_reads(c, keys, m, kept);
    let e = Seq::<(Seq<char>, Seq<char>)>::empty();
    let r0 = apply_lines(e, kept);
    assert forall|j: int|
        0 <= j < keys.len() && (#[trigger] written_value(m, keys[j])) is Some implies line_carries(
        keys[j],
        written_value(m, keys[j])->0,
    ) && upper_of(keys[j]) == keys[j] by {}
    lemma_read_fixed(r0, m, keys);
    assert forall|k: Seq<char>| no_line_for(kept, k) implies lookup(apply_lines(Seq::empty(), kept), k)
        is None by {
        lemma_lines_leave_key(e, kept, k);
    }
}

/// What a written event reads back as: a listed name with a non-empty value
/// gets it back, whatever the kept lines hold; any other name reads as the
/// kept lines give it, and as nothing where no kept line writes it.  This
/// holds where the listed values carry back (see `writes_back`) and the kept
/// lines are fit to be written (`keepable`).
pub proof fn law_event_reads_back(m: PropsModel, kept: Seq<Seq<char>>)
    requires
        writes_back(m, event_keys(), "VEVENT"@),
        keepable(kept, "VEVENT"@),
    ensures
        forall|k: Seq<char>|
            #[trigger] lookup(component_props(event_text(m, kept), "VEVENT"@), k) == if event_keys().contains(k)
                && written_value(m, k) is Some {
                written_value(m, k)
            } else {
                lookup(apply_lines(Seq::empty(), kept), k)
            },
        forall|k: Seq<char>|
            no_line_for(kept, k) ==> lookup(apply_lines(Seq::empty(), kept), k) is None,
{
    lemma_keys_upper();
    lemma_calendar_lookups("VEVENT"@, event_keys(), m, kept);
}

/// What a written task reads back as (see `law_event_reads_back`).
pub proof fn law_task_reads_back(m: PropsModel, kept: Seq<Seq<char>>)
    requires
        writes_back(m, task_keys(), "VTODO"@),
        keepable(kept, "VTODO"@),
    ensures
        forall|k: Seq<char>|
            #[trigger] lookup(component_props(task_text(m, kept), "VTODO"@), k) == if task_keys().contains(k)
                && written_value(m, k) is Some {
                written_value(m, k)
            } else {
                lookup(apply_lines(Seq::empty(), kept), k)
            },
        forall|k: Seq<char>|
            no_line_for(kept, k) ==> lookup(apply_lines(Seq::empty(), kept), k) is None,
{
    lemma_keys_upper();
    lemma_calendar_lookups("VTODO"@, task_keys(), m, kept);
}

/// No listed contact property is `VERSION`.
proof fn lemma_vcard_keys_not_version()
    ensures
        forall|j: int| 0 <= j < vcard_keys().len() ==> #[trigger] vcard_keys()[j] != "VERSION"@,
{
    reveal_strlit("VERSION");
    reveal_strlit("UID");
    reveal_strlit("FN");
    reveal_strlit("EMAIL");
    reveal_strlit("TEL");
    reveal_strlit("ORG");
    reveal_strlit("NOTE");
    reveal_strlit("REV");
    assert forall|j: int| 0 <= j < vcard_keys().len() implies #[trigger] vcard_keys()[j] != "VERSION"@ by {
        assert(vcard_keys()[j].len() != 7);
    }
}

/// What a written contact reads back as: a listed name with a non-empty
/// value gets it back, whatever the kept lines hold; any other name reads as
/// the header line `VERSION:3.0` and then the kept lines give it.  This
/// holds where the listed values carry back (see `writes_back`) and the kept
/// lines are fit to be written (`keepable`).
pub proof fn law_vcard_reads_back(m: PropsModel, kept: Seq<Seq<char>>)
    requires
        writes_back(m, vcard_keys(), "VCARD"@),
        keepable(kept, "VCARD"@),
    ensures
        forall|k: Seq<char>|
            #[trigger] lookup(component_props(vcard_text(m, kept), "VCARD"@), k) == if vcard_keys().contains(k)
                && written_value(m, k) is Some {
                written_value(m, k)
            } else {
                lookup(apply_lines(version_header(), kept), k)
            },
        forall|k: Seq<char>|
            no_line_for(kept, k) ==> lookup(apply_lines(version_header(), kept), k) == if k
                == "VERSION"@ {
                Some("3.0"@)
            } else {
                None
            },
        forall|k: Seq<char>|
            k != "VERSION"@ ==> lookup(apply_lines(version_header(), kept), k) == lookup(
                apply_lines(Seq::empty(), kept),
                k,
            ),
{
    reveal_strlit("BEGIN:VCARD");
    reveal_strlit("VERSION:3.0");
    reveal_strlit("END:VCARD");
    reveal_strlit("BEGIN:");
    reveal_strlit("END:");
    reveal_strlit("VCARD");
    reveal_strlit("VERSION");
    reveal_strlit("3.0");
    reveal_strlit(":");
    lemma_keys_upper();
    let c = "VCARD"@;
    let bm = begin_marker(c);
    let em = end_marker(c);
    let e = Seq::<Seq<char>>::empty();
    let e0 = Seq::<(Seq<char>, Seq<char>)>::empty();
    let mid = seq!["VERSION:3.0"@];
    assert(bm =~= "BEGIN:VCARD"@);
    assert(em =~= "END:VCARD"@);
    assert(vcard_header() =~= e + seq![bm] + mid);
    assert(vcard_footer() =~= seq![em] + e);
    let ls = e + seq![bm] + mid + seq![em] + e;
    assert(ls =~= seq!["BEGIN:VCARD"@, "VERSION:3.0"@, "END:VCARD"@]);
    assert(well_formed_lines(ls));
    lemma_lacks_by_pair(mid[0], em, 1);
    assert forall|i: int| 0 <= i < mid.len() implies !has_text(#[trigger] mid[i], em) by {}
    assert forall|i: int| 0 <= i < e.len() implies !has_text(#[trigger] e[i], bm) by {}
    lemma_component_reads_back(e, c, mid, e, vcard_keys(), kept, m);
    let text = component_text(e + seq![bm] + mid, vcard_keys(), kept, seq![em] + e, m);
    assert(vcard_text(m, kept) == text);
    // The header line `VERSION:3.0` is read first.
    let vl = prop_line("VERSION"@, "3.0"@);
    assert(vl =~= "VERSION:3.0"@);
    assert(line_carries("VERSION"@, "3.0"@)) by {
        assert(!is_white_space("3.0"@.last()));
    }
    lemma_apply_prop_line(e0, "VERSION"@, "3.0"@);
    let r0 = insert(e0, "VERSION"@, "3.0"@);
    assert(apply_lines(e0, mid) == r0) by {
        assert(mid.drop_first() =~= e);
        assert(apply_lines(r0, e) == r0);
    }
    assert(version_header() == r0);
    assert forall|j: int|
        0 <= j < vcard_keys().len() && (#[trigger] written_value(m, vcard_keys()[j])) is Some implies line_carries(
        vcard_keys()[j],
        written_value(m, vcard_keys()[j])->0,
    ) && upper_of(vcard_keys()[j]) == vcard_keys()[j] by {}
    lemma_read_fixed(apply_lines(r0, kept), m, vcard_keys());
    assert forall|k: Seq<char>| no_line_for(kept, k) implies lookup(apply_lines(version_header(), kept), k)
        == if k == "VERSION"@ {
        Some("3.0"@)
    } else {
        None
    } by {
        lemma_lookup_insert(e0, "VERSION"@, "3.0"@, k);
        lemma_lines_leave_key(r0, kept, k);
    }
    assert forall|k: Seq<char>| k != "VERSION"@ implies lookup(apply_lines(version_header(), kept), k)
        == lookup(apply_lines(Seq::empty(), kept), k) by {
        lemma_lookup_insert(e0, "VERSION"@, "3.0"@, k);
        lemma_lines_same_key(r0, e0, kept, k);
    }
}

/// A value a written property line of `c` carries back: empty (and then
/// not written), or without line breaks, not ending in white space and not
/// holding the component's `END:` marker.
pub open spec fn plain_for(v: Seq<char>, c: Seq<char>) -> bool {
    v.len() == 0 || (clean_line(v) && !is_white_space(v.last()) && !has_text(v, end_marker(c)))
}

/// The line `k:v` of a name made of capitals and hyphens without `END` in
/// it carries a non-empty plain value back and holds no `END:` marker.
proof fn lemma_listed_line(k: Seq<char>, v: Seq<char>, c: Seq<char>)
    requires
        crate::roundtrip::upper_name(k),
        k.len() > 0,
        !has_text(k, "END"@),
        v.len() > 0,
        plain_for(v, c),
        c == "VTODO"@ || c == "VCARD"@,
    ensures
        line_carries(k, v),
        !has_text(prop_line(k, v), end_marker(c)),
{
    reveal_strlit(":");
    reveal_strlit("END");
    reveal_strlit("END:");
    reveal_strlit("VTODO");
    reveal_strlit("VCARD");
    let em = end_marker(c);
    let l = prop_line(k, v);
    assert(l =~= k + seq![':'] + v);
    assert(em[0] == 'E' && em[1] == 'N' && em[2] == 'D' && em[3] == ':');
    assert forall|j: int| 4 <= j < em.len() implies em[j] != ':' by {}
    assert(clean_line(k));
    if has_text(l, em) {
        let q = choose|q: int| occurs_at(l, em, q);
        let w = l.subrange(q, q + em.len());
        assert(w == em);
        let n = k.len() as int;
        if q > n {
            assert(v.subrange(q - n - 1, q - n - 1 + em.len()) =~= w);
            assert(occurs_at(v, em, q - n - 1));
        } else if q == n {
            assert(w[0] == l[n]);
        } else if q + 3 < n {
            assert(w[3] == k[q + 3]);
        } else if q + 3 == n {
            assert(k.subrange(q, q + 3) =~= "END"@) by {
                assert(k[q] == w[0] && k[q + 1] == w[1] && k[q + 2] == w[2]);
            }
            assert(occurs_at(k, "END"@, q));
        } else {
            assert(w[n - q] == l[n]);
        }
    }
}

/// A name without `END` in it, by its first and last letter.
proof fn lemma_lacks_end(k: Seq<char>)
    requires
        forall|q: int| 0 <= q && q + 2 < k.len() ==> !(#[trigger] k[q] == 'E' && k[q + 2] == 'D'),
    ensures
        !has_text(k, "END"@),
{
    reveal_strlit("END");
    lemma_lacks_by_pair(k, "END"@, 2);
}

/// A task written from properties whose listed values are plain (see
/// `plain_for`) reads back as those values: each listed property with a
/// non-empty value gets it, and nothing else is read.
pub proof fn law_task_written_reads(m: PropsModel)
    requires
        forall|j: int|
            0 <= j < task_keys().len() ==> (lookup(m, #[trigger] task_keys()[j]) matches Some(v)
                ==> plain_for(v, "VTODO"@)),
    ensures
        forall|k: Seq<char>|
            #[trigger] lookup(component_props(task_text(m, Seq::empty()), "VTODO"@), k) == if task_keys().contains(k) {
                written_value(m, k)
            } else {
                None
            },
{
    reveal_strlit("UID");
    reveal_strlit("SUMMARY");
    reveal_strlit("DESCRIPTION");
    reveal_strlit("DUE");
    reveal_strlit("STATUS");
    reveal_strlit("PRIORITY");
    reveal_strlit("DTSTAMP");
    reveal_strlit("LAST-MODIFIED");
    reveal_strlit("SEQUENCE");
    assert forall|j: int|
        0 <= j < task_keys().len() && (#[trigger] written_value(m, task_keys()[j])) is Some implies {
        &&& line_carries(task_keys()[j], written_value(m, task_keys()[j])->0)
        &&& !has_text(prop_line(task_keys()[j], written_value(m, task_keys()[j])->0), end_marker("VTODO"@))
    } by {
        let k = task_keys()[j];
        lemma_upper_name(k);
        lemma_lacks_end(k);
        lemma_listed_line(k, written_value(m, k)->0, "VTODO"@);
    }
    let none = Seq::<Seq<char>>::empty();
    assert(keepable(none, "VTODO"@));
    law_task_reads_back(m, none);
    assert forall|k: Seq<char>| #[trigger] lookup(component_props(task_text(m, none), "VTODO"@), k)
        == if task_keys().contains(k) {
        written_value(m, k)
    } else {
        None
    } by {
        assert(no_line_for(none, k));
    }
}

/// A contact written from properties whose listed values are plain (see
/// `plain_for`) reads back as those values: each listed property with a
/// non-empty value gets it, `VERSION` reads as `3.0`, and nothing else is
/// read.
pub proof fn law_vcard_written_reads(m: PropsModel)
    requires
        forall|j: int|
            0 <= j < vcard_keys().len() ==> (lookup(m, #[trigger] vcard_keys()[j]) matches Some(v)
                ==> plain_for(v, "VCARD"@)),
    ensures
        forall|k: Seq<char>|
            #[trigger] lookup(component_props(vcard_text(m, Seq::empty()), "VCARD"@), k) == if vcard_keys().contains(k) {
                written_value(m, k)
            } else if k == "VERSION"@ {
                Some("3.0"@)
            } else {
                None
            },
{
    reveal_strlit("UID");
    reveal_strlit("FN");
    reveal_strlit("EMAIL");
    reveal_strlit("TEL");
    reveal_strlit("ORG");
    reveal_strlit("NOTE");
    reveal_strlit("REV");
    assert forall|j: int|
        0 <= j < vcard_keys().len() && (#[trigger] written_value(m, vcard_keys()[j])) is Some implies {
        &&& line_carries(vcard_keys()[j], written_value(m, vcard_keys()[j])->0)
        &&& !has_text(prop_line(vcard_keys()[j], written_value(m, vcard_keys()[j])->0), end_marker("VCARD"@))
    } by {
        let k = vcard_keys()[j];
        lemma_upper_name(k);
        lemma_lacks_end(k);
        lemma_listed_line(k, written_value(m, k)->0, "VCARD"@);
    }
    let none = Seq::<Seq<char>>::empty();
    assert(keepable(none, "VCARD"@));
    law_vcard_reads_back(m, none);
    lemma_vcard_keys_not_version();
    assert forall|k: Seq<char>| #[trigger] lookup(component_props(vcard_text(m, none), "VCARD"@), k)
        == if vcard_keys().contains(k) {
        written_value(m, k)
    } else if k == "VERSION"@ {
        Some("3.0"@)
    } else {
        None
    } by {
        assert(no_line_for(none, k));
        if vcard_keys().contains(k) {
            let j = choose|j: int| 0 <= j < vcard_keys().len() && vcard_keys()[j] == k;
            assert(k != "VERSION"@);
        }
    }
}

// ---------------------------------------------------------------------------
// Reading a component
// ---------------------------------------------------------------------------

proof fn lemma_apply_lines_unique(m: PropsModel, ls: Seq<Seq<char>>)
    requires
        unique_keys(m),
    ensures
        unique_keys(apply_lines(m, ls)),
    decreases ls.len(),
{
    if ls.len() > 0 {
        let l = ls[0];
        let m1 = crate::ical::apply_line(m, l);
        let t = crate::text::trim(l);
        let c = crate::text::next_char_at(t, ':', 0);
        if t.len() > 0 && c < t.len() {
            crate::roundtrip::lemma_insert_unique(
                m,
                upper_of(crate::ical::key_base(t.take(c as int))),
                t.skip((c + 1) as int),
            );
        }
        lemma_apply_lines_unique(m1, ls.drop_first());
    }
}

/// Reading a component gives each property name once.
pub proof fn law_component_names_unique(ical: Seq<char>, component: Seq<char>)
    ensures
        unique_keys(component_props(ical, component)),
{
    let e = Seq::<(Seq<char>, Seq<char>)>::empty();
    assert(unique_keys(e));
    match body_of(ical, component) {
        None => {},
        Some(b) => {
            lemma_apply_lines_unique(e, str_lines(b));
        },
    }
}

// ---------------------------------------------------------------------------
// Decimal numbers
// ---------------------------------------------------------------------------

proof fn lemma_digit_char(d: nat)
    requires
        d < 10,
    ensures
        is_digit(digit_char(d)),
        digit_value(digit_char(d)) == d,
{
}

proof fn lemma_decimal_digits(n: nat)
    ensures
        decimal(n).len() > 0,
        forall|i: int| 0 <= i < decimal(n).len() ==> is_digit(#[trigger] decimal(n)[i]),
        digits_value(decimal(n)) == n,
    decreases n,
{
    if n < 10 {
        lemma_digit_char(n);
        let s = decimal(n);
        assert(s.drop_last() =~= Seq::<char>::empty());
        assert(digits_value(s.drop_last()) == 0);
    } else {
        lemma_decimal_digits(n / 10);
        lemma_digit_char(n % 10);
        let s = decimal(n);
        let p = decimal(n / 10);
        assert(s == p + seq![digit_char(n % 10)]);
        assert(s.drop_last() =~= p);
        assert forall|i: int| 0 <= i < s.len() implies is_digit(#[trigger] s[i]) by {
            if i < p.len() {
                assert(s[i] == p[i]);
            }
        }
        vstd::arithmetic::div_mod::lemma_fundamental_div_mod(n as int, 10);
    }
}

/// A decimal number reads back as itself: parsing the text `ToString`
/// writes for `n` gives `n` whenever `n` fits.
pub proof fn law_decimal_reads_back(n: nat, max: nat)
    requires
        n <= max,
    ensures
        parse_unsigned(decimal(n), max) == Some(n),
{
    lemma_decimal_digits(n);
    assert(is_digit(decimal(n)[0]));
    assert(unsigned_digits(decimal(n)) == decimal(n));
}

// ---------------------------------------------------------------------------
// Updates
// ---------------------------------------------------------------------------

proof fn lemma_put_opt(m: PropsModel, k: Seq<char>, o: Option<String>, k2: Seq<char>)
    ensures
        lookup(put_opt(m, k, o), k2) == (match o {
            Some(s) => if k2 == k {
                Some(s@)
            } else {
                lookup(m, k2)
            },
            None => lookup(m, k2),
        }),
        unique_keys(m) ==> unique_keys(put_opt(m, k, o)),
{
    if let Some(s) = o {
        lemma_lookup_insert(m, k, s@, k2);
        if unique_keys(m) {
            crate::roundtrip::lemma_insert_unique(m, k, s@);
        }
    }
}

proof fn lemma_insert_lookup_unique(m: PropsModel, k: Seq<char>, v: Seq<char>, k2: Seq<char>)
    ensures
        lookup(insert(m, k, v), k2) == (if k2 == k {
            Some(v)
        } else {
            lookup(m, k2)
        }),
        unique_keys(m) ==> unique_keys(insert(m, k, v)),
{
    lemma_lookup_insert(m, k, v, k2);
    if unique_keys(m) {
        crate::roundtrip::lemma_insert_unique(m, k, v);
    }
}

/// Stamping sets `LAST-MODIFIED` and `DTSTAMP` to the time, raises the
/// sequence number by one and changes nothing else.
proof fn lemma_stamped(m: PropsModel, now: Seq<char>, m1: PropsModel)
    requires
        stamped(m, now) == Some(m1),
    ensures
        forall|k: Seq<char>|
            k != "LAST-MODIFIED"@ && k != "DTSTAMP"@ && k != "SEQUENCE"@ ==> #[trigger] lookup(m1, k)
                == lookup(m, k),
        lookup(m1, "LAST-MODIFIED"@) == Some(now),
        lookup(m1, "DTSTAMP"@) == Some(now),
        sequence_of(m1) == sequence_of(m) + 1,
        lookup(m1, "SEQUENCE"@) == Some(decimal(sequence_of(m) + 1)),
        unique_keys(m) ==> unique_keys(m1),
{
    reveal_strlit("LAST-MODIFIED");
    reveal_strlit("DTSTAMP");
    reveal_strlit("SEQUENCE");
    assert("SEQUENCE"@.len() == 8);
    assert("DTSTAMP"@.len() == 7);
    assert("SEQUENCE"@ != "DTSTAMP"@);
    let a = insert(m, "LAST-MODIFIED"@, now);
    let b = insert(a, "DTSTAMP"@, now);
    let n = sequence_of(b);
    assert(n < u32::MAX);
    assert(m1 == insert(b, "SEQUENCE"@, decimal(n + 1)));
    assert forall|k: Seq<char>| #[trigger] lookup(m1, k) == (if k == "SEQUENCE"@ {
        Some(decimal(n + 1))
    } else if k == "DTSTAMP"@ {
        Some(now)
    } else if k == "LAST-MODIFIED"@ {
        Some(now)
    } else {
        lookup(m, k)
    }) by {
        lemma_insert_lookup_unique(m, "LAST-MODIFIED"@, now, k);
        lemma_insert_lookup_unique(a, "DTSTAMP"@, now, k);
        lemma_insert_lookup_unique(b, "SEQUENCE"@, decimal(n + 1), k);
    }
    lemma_insert_lookup_unique(m, "LAST-MODIFIED"@, now, "SEQUENCE"@);
    lemma_insert_lookup_unique(a, "DTSTAMP"@, now, "SEQUENCE"@);
    assert(sequence_of(b) == sequence_of(m));
    law_decimal_reads_back(n + 1, u32::MAX as nat);
    assert(lookup(m1, "SEQUENCE"@) == Some(decimal(n + 1)));
    lemma_insert_lookup_unique(m, "LAST-MODIFIED"@, now, "LAST-MODIFIED"@);
    lemma_insert_lookup_unique(a, "DTSTAMP"@, now, "LAST-MODIFIED"@);
    lemma_insert_lookup_unique(b, "SEQUENCE"@, decimal(n + 1), "LAST-MODIFIED"@);
}

/// Facts that tell the names an update sets apart.
proof fn lemma_event_names()
    ensures
        "SUMMARY"@.len() == 7 && "SUMMARY"@[0] == 'S',
        "DTSTART"@.len() == 7 && "DTSTART"@[0] == 'D' && "DTSTART"@[5] == 'R',
        "DTSTAMP"@.len() == 7 && "DTSTAMP"@[0] == 'D' && "DTSTAMP"@[5] == 'M',
        "DTEND"@.len() == 5,
        "DUE"@.len() == 3 && "DUE"@[0] == 'D',
        "REV"@.len() == 3 && "REV"@[0] == 'R',
        "FN"@.len() == 2,
        "TEL"@.len() == 3 && "TEL"@[0] == 'T',
        "ORG"@.len() == 3 && "ORG"@[0] == 'O',
        "NOTE"@.len() == 4,
        "EMAIL"@.len() == 5,
        "STATUS"@.len() == 6,
        "PRIORITY"@.len() == 8 && "PRIORITY"@[0] == 'P',
        "DESCRIPTION"@.len() == 11,
        "LOCATION"@.len() == 8 && "LOCATION"@[0] == 'L',
        "LAST-MODIFIED"@.len() == 13,
        "SEQUENCE"@.len() == 8 && "SEQUENCE"@[0] == 'S',
{
    reveal_strlit("SUMMARY");
    reveal_strlit("DTSTART");
    reveal_strlit("DTSTAMP");
    reveal_strlit("DTEND");
    reveal_strlit("DUE");
    reveal_strlit("REV");
    reveal_strlit("FN");
    reveal_strlit("TEL");
    reveal_strlit("ORG");
    reveal_strlit("NOTE");
    reveal_strlit("EMAIL");
    reveal_strlit("STATUS");
    reveal_strlit("PRIORITY");
    reveal_strlit("DESCRIPTION");
    reveal_strlit("LOCATION");
    reveal_strlit("LAST-MODIFIED");
    reveal_strlit("SEQUENCE");
}

/// The properties an event update may change.
pub open spec fn event_touched() -> Seq<Seq<char>> {
    seq![
        "SUMMARY"@,
        "DTSTART"@,
        "DTEND"@,
        "DESCRIPTION"@,
        "LOCATION"@,
        "LAST-MODIFIED"@,
        "DTSTAMP"@,
        "SEQUENCE"@,
    ]
}

/// The value an update gives a property: the new one where it is given,
/// the stored one otherwise.
pub open spec fn patched(m: PropsModel, k: Seq<char>, o: Option<String>) -> Option<Seq<char>> {
    match o {
        Some(s) => Some(s@),
        None => lookup(m, k),
    }
}

/// An event update changes only what it is asked to: the summary,
/// description and location given replace the stored ones, the start and end
/// given replace the stored ones in iCalendar form, `LAST-MODIFIED` and
/// `DTSTAMP` become the time of the update, the sequence number goes up by
/// one, and every other property keeps its value.  Names stay unique.
pub proof fn law_update_event_changes(
    m0: PropsModel,
    args: crate::models::UpdateEventArgs,
    now: Seq<char>,
    m1: PropsModel,
)
    requires
        updated_event(m0, args, now) == Some(Ok::<PropsModel, Seq<char>>(m1)),
    ensures
        forall|k: Seq<char>|
            !event_touched().contains(k) ==> #[trigger] lookup(m1, k) == lookup(m0, k),
        lookup(m1, "SUMMARY"@) == patched(m0, "SUMMARY"@, args.summary),
        lookup(m1, "DESCRIPTION"@) == patched(m0, "DESCRIPTION"@, args.description),
        lookup(m1, "LOCATION"@) == patched(m0, "LOCATION"@, args.location),
        args.start matches Some(s) ==> lookup(m1, "DTSTART"@) == Some(ical_of_iso(s@)->Ok_0.0),
        args.end matches Some(s) ==> lookup(m1, "DTEND"@) == Some(ical_of_iso(s@)->Ok_0.0),
        lookup(m1, "LAST-MODIFIED"@) == Some(now),
        lookup(m1, "DTSTAMP"@) == Some(now),
        sequence_of(m1) == sequence_of(m0) + 1,
        lookup(m1, "SEQUENCE"@) == Some(decimal(sequence_of(m0) + 1)),
        unique_keys(m0) ==> unique_keys(m1),
{
    reveal_strlit("SUMMARY");
    reveal_strlit("DTSTART");
    reveal_strlit("DTEND");
    reveal_strlit("DESCRIPTION");
    reveal_strlit("LOCATION");
    reveal_strlit("LAST-MODIFIED");
    reveal_strlit("DTSTAMP");
    reveal_strlit("SEQUENCE");
    lemma_event_names();
    let a = put_opt(m0, "SUMMARY"@, args.summary);
    let b = put_time(a, "DTSTART"@, args.start)->Ok_0;
    let c = put_time(b, "DTEND"@, args.end)->Ok_0;
    let d = put_opt(c, "DESCRIPTION"@, args.description);
    let e = put_opt(d, "LOCATION"@, args.location);
    assert(stamped(e, now) == Some(m1));
    lemma_stamped(e, now, m1);
    assert forall|k: Seq<char>| #[trigger] lookup(e, k) == (if k == "LOCATION"@ {
        patched(d, k, args.location)
    } else if k == "DESCRIPTION"@ {
        patched(c, k, args.description)
    } else if k == "DTEND"@ && args.end is Some {
        Some(ical_of_iso(args.end->0@)->Ok_0.0)
    } else if k == "DTSTART"@ && args.start is Some {
        Some(ical_of_iso(args.start->0@)->Ok_0.0)
    } else if k == "SUMMARY"@ {
        patched(m0, k, args.summary)
    } else {
        lookup(m0, k)
    }) by {
        lemma_put_opt(m0, "SUMMARY"@, args.summary, k);
        if let Some(st) = args.start {
            lemma_insert_lookup_unique(a, "DTSTART"@, ical_of_iso(st@)->Ok_0.0, k);
        }
        if let Some(en) = args.end {
            lemma_insert_lookup_unique(b, "DTEND"@, ical_of_iso(en@)->Ok_0.0, k);
        }
        lemma_put_opt(c, "DESCRIPTION"@, args.description, k);
        lemma_put_opt(d, "LOCATION"@, args.location, k);
        lemma_put_opt(m0, "SUMMARY"@, args.summary, "DESCRIPTION"@);
        lemma_put_opt(m0, "SUMMARY"@, args.summary, "LOCATION"@);
    }
    assert(lookup(e, "SEQUENCE"@) == lookup(m0, "SEQUENCE"@));
    assert(sequence_of(e) == sequence_of(m0));
    assert(lookup(e, "SUMMARY"@) == patched(m0, "SUMMARY"@, args.summary));
    assert(lookup(e, "DESCRIPTION"@) == patched(m0, "DESCRIPTION"@, args.description)) by {
        lemma_put_opt(c, "DESCRIPTION"@, args.description, "DESCRIPTION"@);
        if args.end is Some {
            lemma_insert_lookup_unique(b, "DTEND"@, ical_of_iso(args.end->0@)->Ok_0.0, "DESCRIPTION"@);
        }
        if args.start is Some {
            lemma_insert_lookup_unique(a, "DTSTART"@, ical_of_iso(args.start->0@)->Ok_0.0, "DESCRIPTION"@);
        }
        lemma_put_opt(m0, "SUMMARY"@, args.summary, "DESCRIPTION"@);
    }
    assert(lookup(e, "LOCATION"@) == patched(m0, "LOCATION"@, args.location)) by {
        lemma_put_opt(d, "LOCATION"@, args.location, "LOCATION"@);
        lemma_put_opt(c, "DESCRIPTION"@, args.description, "LOCATION"@);
        if args.end is Some {
            lemma_insert_lookup_unique(b, "DTEND"@, ical_of_iso(args.end->0@)->Ok_0.0, "LOCATION"@);
        }
        if args.start is Some {
            lemma_insert_lookup_unique(a, "DTSTART"@, ical_of_iso(args.start->0@)->Ok_0.0, "LOCATION"@);
        }
        lemma_put_opt(m0, "SUMMARY"@, args.summary, "LOCATION"@);
    }
    assert forall|k: Seq<char>| !event_touched().contains(k) implies #[trigger] lookup(m1, k)
        == lookup(m0, k) by {
        assert(event_touched()[0] == "SUMMARY"@);
        assert(event_touched()[1] == "DTSTART"@);
        assert(event_touched()[2] == "DTEND"@);
        assert(event_touched()[3] == "DESCRIPTION"@);
        assert(event_touched()[4] == "LOCATION"@);
        assert(event_touched()[5] == "LAST-MODIFIED"@);
        assert(event_touched()[6] == "DTSTAMP"@);
        assert(event_touched()[7] == "SEQUENCE"@);
        assert(lookup(e, k) == lookup(m0, k));
    }
    if unique_keys(m0) {
        lemma_put_opt(m0, "SUMMARY"@, args.summary, Seq::empty());
        if let Some(st) = args.start {
            lemma_insert_lookup_unique(a, "DTSTART"@, ical_of_iso(st@)->Ok_0.0, Seq::empty());
        }
        if let Some(en) = args.end {
            lemma_insert_lookup_unique(b, "DTEND"@, ical_of_iso(en@)->Ok_0.0, Seq::empty());
        }
        lemma_put_opt(c, "DESCRIPTION"@, args.description, Seq::empty());
        lemma_put_opt(d, "LOCATION"@, args.location, Seq::empty());
    }
}

/// What the lines a rewrite keeps give: they are fit to be written, and
/// where the body is clean (see `clean_body`) they give every name that is
/// neither listed nor `BEGIN` or `END` what the stored component gives it.
proof fn lemma_kept_facts(existing: Seq<char>, c: Seq<char>, listed: Seq<Seq<char>>)
    ensures
        keepable(kept_lines(existing, c, listed), c),
        clean_body(existing, c) ==> forall|k: Seq<char>|
            !listed.contains(k) && !structure_names().contains(k) ==> #[trigger] lookup(
                apply_lines(Seq::empty(), kept_lines(existing, c, listed)),
                k,
            ) == lookup(component_props(existing, c), k),
{
    let e = Seq::<(Seq<char>, Seq<char>)>::empty();
    match body_of(existing, c) {
        None => {
            assert(kept_lines(existing, c, listed) =~= Seq::<Seq<char>>::empty());
        },
        Some(b) => {
            lemma_kept_good(str_lines(b), 0, listed, end_marker(c));
            if clean_body(existing, c) {
                assert forall|k: Seq<char>|
                    !listed.contains(k) && !structure_names().contains(k) implies #[trigger] lookup(
                    apply_lines(Seq::empty(), kept_lines(existing, c, listed)),
                    k,
                ) == lookup(component_props(existing, c), k) by {
                    assert(structure_names()[0] == "BEGIN"@);
                    assert(structure_names()[1] == "END"@);
                    lemma_kept_same(e, e, str_lines(b), 0, listed, end_marker(c), k);
                }
            }
        }
    }
}

/// Writing back an updated event gives the update's values and keeps what
/// the update does not touch.  Reading the text an update writes gives every
/// listed property with a non-empty value that value, whatever the kept
/// lines hold (so each value the update gives reads back, and so does every
/// untouched listed value); a listed property with no value reads as nothing
/// where no kept line writes it; `SEQUENCE` reads as the old sequence number
/// plus one; and where the stored body is clean (see `clean_body`) every
/// property that is not listed (but `BEGIN` and `END`) reads as it was
/// stored, parameters and nested components being written back as they
/// were.  This holds where the listed values carry back (see `writes_back`).
pub proof fn law_update_event_reads_back(
    existing: Seq<char>,
    args: crate::models::UpdateEventArgs,
    now: Seq<char>,
    m1: PropsModel,
)
    requires
        updated_event(component_props(existing, "VEVENT"@), args, now) == Some(
            Ok::<PropsModel, Seq<char>>(m1),
        ),
        writes_back(m1, event_keys(), "VEVENT"@),
    ensures
        forall|k: Seq<char>|
            event_keys().contains(k) && written_value(m1, k) is Some ==> #[trigger] lookup(
                component_props(event_text(m1, kept_lines(existing, "VEVENT"@, event_keys())), "VEVENT"@),
                k,
            ) == written_value(m1, k),
        forall|k: Seq<char>|
            event_keys().contains(k) && no_line_for(kept_lines(existing, "VEVENT"@, event_keys()), k)
                ==> #[trigger] lookup(
                component_props(event_text(m1, kept_lines(existing, "VEVENT"@, event_keys())), "VEVENT"@),
                k,
            ) == written_value(m1, k),
        forall|k: Seq<char>|
            !event_touched().contains(k) && event_keys().contains(k) && written_value(
                component_props(existing, "VEVENT"@),
                k,
            ) is Some ==> #[trigger] lookup(
                component_props(event_text(m1, kept_lines(existing, "VEVENT"@, event_keys())), "VEVENT"@),
                k,
            ) == written_value(component_props(existing, "VEVENT"@), k),
        lookup(
            component_props(event_text(m1, kept_lines(existing, "VEVENT"@, event_keys())), "VEVENT"@),
            "SEQUENCE"@,
        ) == Some(decimal(sequence_of(component_props(existing, "VEVENT"@)) + 1)),
        clean_body(existing, "VEVENT"@) ==> forall|k: Seq<char>|
            !event_keys().contains(k) && !structure_names().contains(k) ==> #[trigger] lookup(
                component_props(event_text(m1, kept_lines(existing, "VEVENT"@, event_keys())), "VEVENT"@),
                k,
            ) == lookup(component_props(existing, "VEVENT"@), k),
{
    let m0 = component_props(existing, "VEVENT"@);
    let kept = kept_lines(existing, "VEVENT"@, event_keys());
    law_update_event_changes(m0, args, now, m1);
    lemma_kept_facts(existing, "VEVENT"@, event_keys());
    law_event_reads_back(m1, kept);
    lemma_decimal_digits(sequence_of(m0) + 1);
    reveal_strlit("SEQUENCE");
    assert(event_keys()[8] == "SEQUENCE"@);
}

/// The properties a task update may change.
pub open spec fn task_touched() -> Seq<Seq<char>> {
    seq![
        "SUMMARY"@,
        "DESCRIPTION"@,
        "DUE"@,
        "STATUS"@,
        "PRIORITY"@,
        "LAST-MODIFIED"@,
        "DTSTAMP"@,
        "SEQUENCE"@,
    ]
}

/// A task update changes only what it is asked to: the summary and
/// description given replace the stored ones, a given due date is stored in
/// iCalendar form, a given status in upper case, a given priority in
/// decimal, `LAST-MODIFIED` and `DTSTAMP` become the time of the update, the
/// sequence number goes up by one, and every other property keeps its value.
/// Names stay unique.
pub proof fn law_update_task_changes(
    m0: PropsModel,
    args: crate::models::UpdateTaskArgs,
    now: Seq<char>,
    m1: PropsModel,
)
    requires
        updated_task(m0, args, now) == Some(Ok::<PropsModel, Seq<char>>(m1)),
    ensures
        forall|k: Seq<char>|
            !task_touched().contains(k) ==> #[trigger] lookup(m1, k) == lookup(m0, k),
        lookup(m1, "SUMMARY"@) == patched(m0, "SUMMARY"@, args.summary),
        lookup(m1, "DESCRIPTION"@) == patched(m0, "DESCRIPTION"@, args.description),
        args.due matches Some(s) ==> lookup(m1, "DUE"@) == Some(ical_of_iso(s@)->Ok_0.0),
        args.status matches Some(s) ==> lookup(m1, "STATUS"@) == Some(upper_of(s@)),
        args.priority matches Some(n) ==> lookup(m1, "PRIORITY"@) == Some(decimal(n as nat)),
        lookup(m1, "LAST-MODIFIED"@) == Some(now),
        lookup(m1, "DTSTAMP"@) == Some(now),
        sequence_of(m1) == sequence_of(m0) + 1,
        lookup(m1, "SEQUENCE"@) == Some(decimal(sequence_of(m0) + 1)),
        unique_keys(m0) ==> unique_keys(m1),
{
    lemma_event_names();
    let a = put_opt(m0, "SUMMARY"@, args.summary);
    let b = put_opt(a, "DESCRIPTION"@, args.description);
    let c = put_time(b, "DUE"@, args.due)->Ok_0;
    let d = match args.status {
        None => c,
        Some(st) => insert(c, "STATUS"@, upper_of(st@)),
    };
    let e = match args.priority {
        Some(n) => insert(d, "PRIORITY"@, decimal(n as nat)),
        None => d,
    };
    assert(stamped(e, now) == Some(m1));
    lemma_stamped(e, now, m1);
    assert forall|k: Seq<char>| #[trigger] lookup(e, k) == (if k == "PRIORITY"@ && args.priority is Some {
        Some(decimal(args.priority->0 as nat))
    } else if k == "STATUS"@ && args.status is Some {
        Some(upper_of(args.status->0@))
    } else if k == "DUE"@ && args.due is Some {
        Some(ical_of_iso(args.due->0@)->Ok_0.0)
    } else if k == "DESCRIPTION"@ {
        patched(a, k, args.description)
    } else if k == "SUMMARY"@ {
        patched(m0, k, args.summary)
    } else {
        lookup(m0, k)
    }) by {
        lemma_put_opt(m0, "SUMMARY"@, args.summary, k);
        lemma_put_opt(a, "DESCRIPTION"@, args.description, k);
        if let Some(du) = args.due {
            lemma_insert_lookup_unique(b, "DUE"@, ical_of_iso(du@)->Ok_0.0, k);
        }
        if let Some(st) = args.status {
            lemma_insert_lookup_unique(c, "STATUS"@, upper_of(st@), k);
        }
        if let Some(n) = args.priority {
            lemma_insert_lookup_unique(d, "PRIORITY"@, decimal(n as nat), k);
        }
    }
    assert(lookup(e, "SEQUENCE"@) == lookup(m0, "SEQUENCE"@));
    assert(sequence_of(e) == sequence_of(m0));
    assert(lookup(e, "SUMMARY"@) == patched(m0, "SUMMARY"@, args.summary));
    assert(lookup(e, "DESCRIPTION"@) == patched(m0, "DESCRIPTION"@, args.description)) by {
        lemma_put_opt(m0, "SUMMARY"@, args.summary, "DESCRIPTION"@);
    }
    assert forall|k: Seq<char>| !task_touched().contains(k) implies #[trigger] lookup(m1, k)
        == lookup(m0, k) by {
        assert(task_touched()[0] == "SUMMARY"@);
        assert(task_touched()[1] == "DESCRIPTION"@);
        assert(task_touched()[2] == "DUE"@);
        assert(task_touched()[3] == "STATUS"@);
        assert(task_touched()[4] == "PRIORITY"@);
        assert(task_touched()[5] == "LAST-MODIFIED"@);
        assert(task_touched()[6] == "DTSTAMP"@);
        assert(task_touched()[7] == "SEQUENCE"@);
        assert(lookup(e, k) == lookup(m0, k));
    }
    if unique_keys(m0) {
        lemma_put_opt(m0, "SUMMARY"@, args.summary, Seq::empty());
        lemma_put_opt(a, "DESCRIPTION"@, args.description, Seq::empty());
        if let Some(du) = args.due {
            lemma_insert_lookup_unique(b, "DUE"@, ical_of_iso(du@)->Ok_0.0, Seq::empty());
        }
        if let Some(st) = args.status {
            lemma_insert_lookup_unique(c, "STATUS"@, upper_of(st@), Seq::empty());
        }
        if let Some(n) = args.priority {
            lemma_insert_lookup_unique(d, "PRIORITY"@, decimal(n as nat), Seq::empty());
        }
    }
}

/// Writing back an updated task gives the update's values and keeps what
/// the update does not touch (see `law_update_event_reads_back`).
pub proof fn law_update_task_reads_back(
    existing: Seq<char>,
    args: crate::models::UpdateTaskArgs,
    now: Seq<char>,
    m1: PropsModel,
)
    requires
        updated_task(component_props(existing, "VTODO"@), args, now) == Some(
            Ok::<PropsModel, Seq<char>>(m1),
        ),
        writes_back(m1, task_keys(), "VTODO"@),
    ensures
        forall|k: Seq<char>|
            task_keys().contains(k) && written_value(m1, k) is Some ==> #[trigger] lookup(
                component_props(task_text(m1, kept_lines(existing, "VTODO"@, task_keys())), "VTODO"@),
                k,
            ) == written_value(m1, k),
        forall|k: Seq<char>|
            task_keys().contains(k) && no_line_for(kept_lines(existing, "VTODO"@, task_keys()), k)
                ==> #[trigger] lookup(
                component_props(task_text(m1, kept_lines(existing, "VTODO"@, task_keys())), "VTODO"@),
                k,
            ) == written_value(m1, k),
        forall|k: Seq<char>|
            !task_touched().contains(k) && task_keys().contains(k) && written_value(
                component_props(existing, "VTODO"@),
                k,
            ) is Some ==> #[trigger] lookup(
                component_props(task_text(m1, kept_lines(existing, "VTODO"@, task_keys())), "VTODO"@),
                k,
            ) == written_value(component_props(existing, "VTODO"@), k),
        lookup(
            component_props(task_text(m1, kept_lines(existing, "VTODO"@, task_keys())), "VTODO"@),
            "SEQUENCE"@,
        ) == Some(decimal(sequence_of(component_props(existing, "VTODO"@)) + 1)),
        clean_body(existing, "VTODO"@) ==> forall|k: Seq<char>|
            !task_keys().contains(k) && !structure_names().contains(k) ==> #[trigger] lookup(
                component_props(task_text(m1, kept_lines(existing, "VTODO"@, task_keys())), "VTODO"@),
                k,
            ) == lookup(component_props(existing, "VTODO"@), k),
{
    let m0 = component_props(existing, "VTODO"@);
    let kept = kept_lines(existing, "VTODO"@, task_keys());
    law_update_task_changes(m0, args, now, m1);
    lemma_kept_facts(existing, "VTODO"@, task_keys());
    law_task_reads_back(m1, kept);
    lemma_decimal_digits(sequence_of(m0) + 1);
    reveal_strlit("SEQUENCE");
    assert(task_keys()[8] == "SEQUENCE"@);
}

/// The properties a contact update may change.
pub open spec fn contact_touched() -> Seq<Seq<char>> {
    seq!["FN"@, "EMAIL"@, "TEL"@, "ORG"@, "NOTE"@, "REV"@]
}

/// A contact update changes only what it is asked to: the name, email,
/// phone, organization and notes given replace the stored ones, `REV`
/// becomes the time of the update, and every other property keeps its
/// value.  Names stay unique.
pub proof fn law_update_contact_changes(
    m0: PropsModel,
    args: crate::models::UpdateContactArgs,
    now: Seq<char>,
)
    ensures
        forall|k: Seq<char>|
            !contact_touched().contains(k) ==> #[trigger] lookup(updated_contact(m0, args, now), k)
                == lookup(m0, k),
        lookup(updated_contact(m0, args, now), "FN"@) == patched(m0, "FN"@, args.full_name),
        lookup(updated_contact(m0, args, now), "EMAIL"@) == patched(m0, "EMAIL"@, args.email),
        lookup(updated_contact(m0, args, now), "TEL"@) == patched(m0, "TEL"@, args.phone),
        lookup(updated_contact(m0, args, now), "ORG"@) == patched(m0, "ORG"@, args.organization),
        lookup(updated_contact(m0, args, now), "NOTE"@) == patched(m0, "NOTE"@, args.notes),
        lookup(updated_contact(m0, args, now), "REV"@) == Some(now),
        unique_keys(m0) ==> unique_keys(updated_contact(m0, args, now)),
{
    lemma_event_names();
    let a = put_opt(m0, "FN"@, args.full_name);
    let b = put_opt(a, "EMAIL"@, args.email);
    let c = put_opt(b, "TEL"@, args.phone);
    let d = put_opt(c, "ORG"@, args.organization);
    let e = put_opt(d, "NOTE"@, args.notes);
    let m1 = updated_contact(m0, args, now);
    assert(m1 == insert(e, "REV"@, now));
    assert forall|k: Seq<char>| #[trigger] lookup(m1, k) == (if k == "REV"@ {
        Some(now)
    } else if k == "NOTE"@ {
        patched(d, k, args.notes)
    } else if k == "ORG"@ {
        patched(c, k, args.organization)
    } else if k == "TEL"@ {
        patched(b, k, args.phone)
    } else if k == "EMAIL"@ {
        patched(a, k, args.email)
    } else if k == "FN"@ {
        patched(m0, k, args.full_name)
    } else {
        lookup(m0, k)
    }) by {
        lemma_put_opt(m0, "FN"@, args.full_name, k);
        lemma_put_opt(a, "EMAIL"@, args.email, k);
        lemma_put_opt(b, "TEL"@, args.phone, k);
        lemma_put_opt(c, "ORG"@, args.organization, k);
        lemma_put_opt(d, "NOTE"@, args.notes, k);
        lemma_insert_lookup_unique(e, "REV"@, now, k);
    }
    assert(lookup(m1, "EMAIL"@) == patched(m0, "EMAIL"@, args.email)) by {
        lemma_put_opt(m0, "FN"@, args.full_name, "EMAIL"@);
    }
    assert(lookup(m1, "TEL"@) == patched(m0, "TEL"@, args.phone)) by {
        lemma_put_opt(m0, "FN"@, args.full_name, "TEL"@);
        lemma_put_opt(a, "EMAIL"@, args.email, "TEL"@);
    }
    assert(lookup(m1, "ORG"@) == patched(m0, "ORG"@, args.organization)) by {
        lemma_put_opt(m0, "FN"@, args.full_name, "ORG"@);
        lemma_put_opt(a, "EMAIL"@, args.email, "ORG"@);
        lemma_put_opt(b, "TEL"@, args.phone, "ORG"@);
    }
    assert(lookup(m1, "NOTE"@) == patched(m0, "NOTE"@, args.notes)) by {
        lemma_put_opt(m0, "FN"@, args.full_name, "NOTE"@);
        lemma_put_opt(a, "EMAIL"@, args.email, "NOTE"@);
        lemma_put_opt(b, "TEL"@, args.phone, "NOTE"@);
        lemma_put_opt(c, "ORG"@, args.organization, "NOTE"@);
    }
    assert forall|k: Seq<char>| !contact_touched().contains(k) implies #[trigger] lookup(m1, k)
        == lookup(m0, k) by {
        assert(contact_touched()[0] == "FN"@);
        assert(contact_touched()[1] == "EMAIL"@);
        assert(contact_touched()[2] == "TEL"@);
        assert(contact_touched()[3] == "ORG"@);
        assert(contact_touched()[4] == "NOTE"@);
        assert(contact_touched()[5] == "REV"@);
    }
    if unique_keys(m0) {
        lemma_put_opt(m0, "FN"@, args.full_name, Seq::empty());
        lemma_put_opt(a, "EMAIL"@, args.email, Seq::empty());
        lemma_put_opt(b, "TEL"@, args.phone, Seq::empty());
        lemma_put_opt(c, "ORG"@, args.organization, Seq::empty());
        lemma_put_opt(d, "NOTE"@, args.notes, Seq::empty());
        lemma_insert_lookup_unique(e, "REV"@, now, Seq::empty());
    }
}

/// Writing back an updated contact gives the update's values and keeps
/// what the update does not touch.  Reading the text an update writes gives
/// every listed property with a non-empty value that value, whatever the
/// kept lines hold; a listed property with no value reads as nothing where
/// no kept line writes it; and where the stored body is clean (see
/// `clean_body`) every property that is neither listed nor `VERSION` (but
/// `BEGIN` and `END`) reads as it was stored, parameters included.  This
/// holds where the listed values carry back (see `writes_back`).
pub proof fn law_update_contact_reads_back(
    existing: Seq<char>,
    args: crate::models::UpdateContactArgs,
    now: Seq<char>,
)
    requires
        writes_back(
            updated_contact(component_props(existing, "VCARD"@), args, now),
            vcard_keys(),
            "VCARD"@,
        ),
    ensures
        forall|k: Seq<char>|
            vcard_keys().contains(k) && written_value(
                updated_contact(component_props(existing, "VCARD"@), args, now),
                k,
            ) is Some ==> #[trigger] lookup(
                component_props(
                    vcard_text(
                        updated_contact(component_props(existing, "VCARD"@), args, now),
                        kept_lines(existing, "VCARD"@, vcard_written()),
                    ),
                    "VCARD"@,
                ),
                k,
            ) == written_value(updated_contact(component_props(existing, "VCARD"@), args, now), k),
        forall|k: Seq<char>|
            vcard_keys().contains(k) && no_line_for(kept_lines(existing, "VCARD"@, vcard_written()), k)
                ==> #[trigger] lookup(
                component_props(
                    vcard_text(
                        updated_contact(component_props(existing, "VCARD"@), args, now),
                        kept_lines(existing, "VCARD"@, vcard_written()),
                    ),
                    "VCARD"@,
                ),
                k,
            ) == written_value(updated_contact(component_props(existing, "VCARD"@), args, now), k),
        clean_body(existing, "VCARD"@) ==> forall|k: Seq<char>|
            !vcard_written().contains(k) && !structure_names().contains(k) ==> #[trigger] lookup(
                component_props(
                    vcard_text(
                        updated_contact(component_props(existing, "VCARD"@), args, now),
                        kept_lines(existing, "VCARD"@, vcard_written()),
                    ),
                    "VCARD"@,
                ),
                k,
            ) == lookup(component_props(existing, "VCARD"@), k),
{
    let m0 = component_props(existing, "VCARD"@);
    let m1 = updated_contact(m0, args, now);
    let kept = kept_lines(existing, "VCARD"@, vcard_written());
    law_update_contact_changes(m0, args, now);
    lemma_kept_facts(existing, "VCARD"@, vcard_written());
    law_vcard_reads_back(m1, kept);
    reveal_strlit("VERSION");
    reveal_strlit("UID");
    reveal_strlit("FN");
    reveal_strlit("EMAIL");
    reveal_strlit("TEL");
    reveal_strlit("ORG");
    reveal_strlit("NOTE");
    reveal_strlit("REV");
    assert forall|k: Seq<char>|
        vcard_keys().contains(k) && no_line_for(kept, k) implies #[trigger] lookup(
        component_props(vcard_text(m1, kept), "VCARD"@),
        k,
    ) == written_value(m1, k) by {
        lemma_vcard_keys_not_version();
        let j = choose|j: int| 0 <= j < vcard_keys().len() && vcard_keys()[j] == k;
        assert(k != "VERSION"@);
    }
    assert forall|k: Seq<char>|
        !vcard_written().contains(k) && !structure_names().contains(k) && clean_body(existing, "VCARD"@)
        implies #[trigger] lookup(component_props(vcard_text(m1, kept), "VCARD"@), k) == lookup(m0, k) by {
        crate::roundtrip::lemma_contains_concat(vcard_keys(), seq!["VERSION"@], k);
        if k == "VERSION"@ {
            assert(seq!["VERSION"@][0] == k);
        }
        assert(!vcard_keys().contains(k));
        assert(k != "VERSION"@);
        assert(lookup(apply_lines(version_header(), kept), k) == lookup(apply_lines(Seq::empty(), kept), k));
        assert(lookup(apply_lines(Seq::empty(), kept), k) == lookup(m0, k));
    }
}

// ---------------------------------------------------------------------------
// Creating
// ---------------------------------------------------------------------------

proof fn lemma_insert_unique_step(m: PropsModel, k: Seq<char>, v: Seq<char>)
    requires
        unique_keys(m),
    ensures
        unique_keys(insert(m, k, v)),
{
    crate::roundtrip::lemma_insert_unique(m, k, v);
}

/// Listing a created event gives back what it was created with: its
/// identifier, summary, description and location, where every property
/// written reads back unchanged (see `writes_back`).
pub proof fn law_created_event_listed(
    args: crate::models::CreateEventArgs,
    uid: Seq<char>,
    dtstart: Seq<char>,
    dtend: Seq<char>,
    now: Seq<char>,
    href: Seq<char>,
)
    requires
        writes_back(new_event_props(args, uid, dtstart, dtend, now), event_keys(), "VEVENT"@),
    ensures
        ({
            let e = event_of(
                href,
                event_text(new_event_props(args, uid, dtstart, dtend, now), Seq::empty()),
            );
            &&& e.uid == uid
            &&& e.url == href
            &&& e.summary == args.summary@
            &&& e.description == opt_text(args.description)
            &&& e.location == opt_text(args.location)
        }),
{
    lemma_event_names();
    reveal_strlit("UID");
    let e0 = Seq::<(Seq<char>, Seq<char>)>::empty();
    let m1 = insert(e0, "UID"@, uid);
    let m2 = insert(m1, "DTSTART"@, dtstart);
    let m3 = insert(m2, "DTEND"@, dtend);
    let m4 = insert(m3, "SUMMARY"@, args.summary@);
    let m5 = insert(m4, "DESCRIPTION"@, opt_text(args.description));
    let m6 = insert(m5, "LOCATION"@, opt_text(args.location));
    let m7 = insert(m6, "DTSTAMP"@, now);
    let m8 = insert(m7, "LAST-MODIFIED"@, now);
    let m = insert(m8, "SEQUENCE"@, "0"@);
    assert(m == new_event_props(args, uid, dtstart, dtend, now));
    lemma_insert_unique_step(e0, "UID"@, uid);
    lemma_insert_unique_step(m1, "DTSTART"@, dtstart);
    lemma_insert_unique_step(m2, "DTEND"@, dtend);
    lemma_insert_unique_step(m3, "SUMMARY"@, args.summary@);
    lemma_insert_unique_step(m4, "DESCRIPTION"@, opt_text(args.description));
    lemma_insert_unique_step(m5, "LOCATION"@, opt_text(args.location));
    lemma_insert_unique_step(m6, "DTSTAMP"@, now);
    lemma_insert_unique_step(m7, "LAST-MODIFIED"@, now);
    lemma_insert_unique_step(m8, "SEQUENCE"@, "0"@);
    let none = Seq::<Seq<char>>::empty();
    assert(keepable(none, "VEVENT"@));
    law_event_reads_back(m, none);
    let read = component_props(event_text(m, none), "VEVENT"@);
    assert(event_keys()[0] == "UID"@ && event_keys()[3] == "SUMMARY"@ && event_keys()[4]
        == "DESCRIPTION"@ && event_keys()[5] == "LOCATION"@);
    assert forall|k: Seq<char>|
        k == "UID"@ || k == "SUMMARY"@ || k == "DESCRIPTION"@ || k == "LOCATION"@ implies #[trigger] text_or_empty(
        read,
        k,
    ) == text_or_empty(m, k) by {
        assert(no_line_for(none, k));
        assert(event_keys().contains(k));
        assert(lookup(read, k) == written_value(m, k));
    }
    assert forall|k: Seq<char>| #[trigger] lookup(m, k) == (if k == "SEQUENCE"@ {
        Some("0"@)
    } else if k == "LAST-MODIFIED"@ {
        Some(now)
    } else if k == "DTSTAMP"@ {
        Some(now)
    } else if k == "LOCATION"@ {
        Some(opt_text(args.location))
    } else if k == "DESCRIPTION"@ {
        Some(opt_text(args.description))
    } else if k == "SUMMARY"@ {
        Some(args.summary@)
    } else if k == "DTEND"@ {
        Some(dtend)
    } else if k == "DTSTART"@ {
        Some(dtstart)
    } else if k == "UID"@ {
        Some(uid)
    } else {
        None
    }) by {
        lemma_lookup_insert(e0, "UID"@, uid, k);
        lemma_lookup_insert(m1, "DTSTART"@, dtstart, k);
        lemma_lookup_insert(m2, "DTEND"@, dtend, k);
        lemma_lookup_insert(m3, "SUMMARY"@, args.summary@, k);
        lemma_lookup_insert(m4, "DESCRIPTION"@, opt_text(args.description), k);
        lemma_lookup_insert(m5, "LOCATION"@, opt_text(args.location), k);
        lemma_lookup_insert(m6, "DTSTAMP"@, now, k);
        lemma_lookup_insert(m7, "LAST-MODIFIED"@, now, k);
        lemma_lookup_insert(m8, "SEQUENCE"@, "0"@, k);
        assert(lookup(e0, k) is None);
    }
    assert(text_or_empty(read, "UID"@) == uid);
    assert(text_or_empty(read, "SUMMARY"@) == args.summary@);
    assert(text_or_empty(read, "DESCRIPTION"@) == opt_text(args.description));
    assert(text_or_empty(read, "LOCATION"@) == opt_text(args.location));
}

/// A value that the content line `k:v` of a `component` carries back: an
/// empty one (which is not written), or one whose line carries it (see
/// `line_carries`) and does not hold the component's `END:` marker.
pub open spec fn carried_as(k: Seq<char>, v: Seq<char>, c: Seq<char>) -> bool {
    v.len() == 0 || (line_carries(k, v) && !has_text(prop_line(k, v), end_marker(c)))
}

/// A text without `:`, carriage returns or line feeds, not empty, that
/// does not end in white space.
pub open spec fn plain_value(v: Seq<char>) -> bool {
    &&& v.len() > 0
    &&& !is_white_space(v.last())
    &&& forall|j: int| 0 <= j < v.len() ==> #[trigger] v[j] != ':' && v[j] != '\r' && v[j] != '\n'
}

/// A version 4 UUID is a plain value.
proof fn lemma_uuid_plain(uid: Seq<char>)
    requires
        is_uuid_v4(uid),
    ensures
        plain_value(uid),
{
    assert(is_lower_hex(uid[35]));
    assert forall|j: int| 0 <= j < uid.len() implies #[trigger] uid[j] != ':' && uid[j] != '\r'
        && uid[j] != '\n' by {
        if j == 8 || j == 13 || j == 18 || j == 23 {
            assert(uid[j] == '-');
        } else {
            assert(is_lower_hex(uid[j]));
        }
    }
}

/// A UTC stamp is a plain value.
proof fn lemma_stamp_plain(now: Seq<char>)
    requires
        is_utc_stamp(now),
    ensures
        plain_value(now),
{
    let n = now.len() as int;
    assert forall|j: int| 0 <= j < now.len() implies #[trigger] now[j] != ':' && now[j] != '\r'
        && now[j] != '\n' by {
        if j == n - 1 {
        } else if j == n - 8 {
        } else if n - 12 <= j < n - 8 {
            assert(is_digit(now[j]));
        } else if n - 7 <= j < n - 1 {
            assert(is_digit(now[j]));
        } else if n == 16 {
            assert(is_digit(now[j]));
        } else if j == 0 {
        } else {
            assert(is_digit(now[j]));
        }
    }
}

/// A plain value carries back as `UID` or `REV` of a contact.
proof fn lemma_plain_carried(k: Seq<char>, v: Seq<char>)
    requires
        k == "UID"@ || k == "REV"@,
        plain_value(v),
    ensures
        carried_as(k, v, "VCARD"@),
{
    reveal_strlit("UID");
    reveal_strlit("REV");
    reveal_strlit("END:");
    reveal_strlit("VCARD");
    reveal_strlit(":");
    let em = end_marker("VCARD"@);
    assert(em =~= seq!['E', 'N', 'D', ':', 'V', 'C', 'A', 'R', 'D']);
    let l = prop_line(k, v);
    assert(l =~= k + seq![':'] + v);
    assert(clean_line(k) && clean_line(v));
    assert(line_carries(k, v));
    assert forall|q: int| 0 <= q && q + 3 < l.len() implies !(#[trigger] l[q] == em[0] && l[q
        + 3] == em[3]) by {
        if q + 3 > 3 {
            assert(l[q + 3] == v[q - 1]);
        }
    }
    lemma_lacks_by_pair(l, em, 3);
}

/// Listing a created contact gives back what it was created with: its
/// identifier, name, email, phone, organization and notes, where the
/// identifier is a version 4 UUID, the time a UTC stamp, and each value
/// given is carried by its line (see `carried_as`).
pub proof fn law_created_contact_listed(
    args: crate::models::CreateContactArgs,
    uid: Seq<char>,
    now: Seq<char>,
    href: Seq<char>,
)
    requires
        is_uuid_v4(uid),
        is_utc_stamp(now),
        carried_as("FN"@, args.full_name@, "VCARD"@),
        carried_as("EMAIL"@, opt_text(args.email), "VCARD"@),
        carried_as("TEL"@, opt_text(args.phone), "VCARD"@),
        carried_as("ORG"@, opt_text(args.organization), "VCARD"@),
        carried_as("NOTE"@, opt_text(args.notes), "VCARD"@),
    ensures
        ({
            let c = contact_of(href, vcard_text(new_contact_props(args, uid, now), Seq::empty()));
            &&& c.uid == uid
            &&& c.url == href
            &&& c.full_name == args.full_name@
            &&& c.email == opt_text(args.email)
            &&& c.phone == opt_text(args.phone)
            &&& c.organization == opt_text(args.organization)
            &&& c.notes == opt_text(args.notes)
        }),
{
    reveal_strlit("UID");
    reveal_strlit("FN");
    reveal_strlit("EMAIL");
    reveal_strlit("TEL");
    reveal_strlit("ORG");
    reveal_strlit("NOTE");
    reveal_strlit("REV");
    lemma_uuid_plain(uid);
    lemma_stamp_plain(now);
    lemma_plain_carried("UID"@, uid);
    lemma_plain_carried("REV"@, now);
    let e0 = Seq::<(Seq<char>, Seq<char>)>::empty();
    let m1 = insert(e0, "UID"@, uid);
    let m2 = insert(m1, "FN"@, args.full_name@);
    let m3 = insert(m2, "EMAIL"@, opt_text(args.email));
    let m4 = insert(m3, "TEL"@, opt_text(args.phone));
    let m5 = insert(m4, "ORG"@, opt_text(args.organization));
    let m6 = insert(m5, "NOTE"@, opt_text(args.notes));
    let m = insert(m6, "REV"@, now);
    assert(m == new_contact_props(args, uid, now));
    assert forall|k: Seq<char>| #[trigger] lookup(m, k) == (if k == "REV"@ {
        Some(now)
    } else if k == "NOTE"@ {
        Some(opt_text(args.notes))
    } else if k == "ORG"@ {
        Some(opt_text(args.organization))
    } else if k == "TEL"@ {
        Some(opt_text(args.phone))
    } else if k == "EMAIL"@ {
        Some(opt_text(args.email))
    } else if k == "FN"@ {
        Some(args.full_name@)
    } else if k == "UID"@ {
        Some(uid)
    } else {
        None
    }) by {
        lemma_lookup_insert(e0, "UID"@, uid, k);
        lemma_lookup_insert(m1, "FN"@, args.full_name@, k);
        lemma_lookup_insert(m2, "EMAIL"@, opt_text(args.email), k);
        lemma_lookup_insert(m3, "TEL"@, opt_text(args.phone), k);
        lemma_lookup_insert(m4, "ORG"@, opt_text(args.organization), k);
        lemma_lookup_insert(m5, "NOTE"@, opt_text(args.notes), k);
        lemma_lookup_insert(m6, "REV"@, now, k);
        assert(lookup(e0, k) is None);
    }
    assert(writes_back(m, vcard_keys(), "VCARD"@)) by {
        assert forall|j: int|
            0 <= j < vcard_keys().len() && (#[trigger] written_value(m, vcard_keys()[j])) is Some implies {
            &&& line_carries(vcard_keys()[j], written_value(m, vcard_keys()[j])->0)
            &&& !has_text(
                prop_line(vcard_keys()[j], written_value(m, vcard_keys()[j])->0),
                end_marker("VCARD"@),
            )
        } by {
            let k = vcard_keys()[j];
            assert(lookup(m, k) is Some);
            assert(carried_as(k, lookup(m, k)->0, "VCARD"@));
        }
    }
    let none = Seq::<Seq<char>>::empty();
    assert(keepable(none, "VCARD"@));
    law_vcard_reads_back(m, none);
    let read = component_props(vcard_text(m, none), "VCARD"@);
    assert forall|j: int| 0 <= j < vcard_keys().len() implies #[trigger] text_or_empty(
        read,
        vcard_keys()[j],
    ) == text_or_empty(m, vcard_keys()[j]) by {
        let k = vcard_keys()[j];
        lemma_vcard_keys_not_version();
        assert(k != "VERSION"@);
        assert(no_line_for(none, k));
        assert(vcard_keys().contains(k));
        assert(lookup(read, k) == written_value(m, k));
    }
    assert(text_or_empty(read, vcard_keys()[0]) == text_or_empty(m, "UID"@));
    assert(text_or_empty(read, vcard_keys()[1]) == text_or_empty(m, "FN"@));
    assert(text_or_empty(read, vcard_keys()[2]) == text_or_empty(m, "EMAIL"@));
    assert(text_or_empty(read, vcard_keys()[3]) == text_or_empty(m, "TEL"@));
    assert(text_or_empty(read, vcard_keys()[4]) == text_or_empty(m, "ORG"@));
    assert(text_or_empty(read, vcard_keys()[5]) == text_or_empty(m, "NOTE"@));
}

// ---------------------------------------------------------------------------
// Listing
// ---------------------------------------------------------------------------

/// Completed tasks are left out unless they are asked for: no task listed
/// without `include_completed` has the status `COMPLETED`.
pub proof fn law_completed_tasks_hidden(rs: Seq<(Seq<char>, PropsModel)>)
    ensures
        tasks_of(rs, false) matches Some(ts) ==> forall|i: int|
            0 <= i < ts.len() ==> (#[trigger] ts[i]).status != "COMPLETED"@,
    decreases rs.len(),
{
    if rs.len() > 0 {
        law_completed_tasks_hidden(rs.drop_last());
    }
}

/// The tasks that are not completed, in their order.
pub open spec fn without_completed(ts: Seq<crate::models::TaskModel>) -> Seq<crate::models::TaskModel>
    decreases ts.len(),
{
    if ts.len() == 0 {
        Seq::empty()
    } else {
        let rest = without_completed(ts.drop_last());
        if ts.last().status == "COMPLETED"@ {
            rest
        } else {
            rest.push(ts.last())
        }
    }
}

/// Listing tasks without the completed ones gives the list with them, less
/// exactly the tasks whose status is `COMPLETED`, in the same order.
pub proof fn law_tasks_without_completed(rs: Seq<(Seq<char>, PropsModel)>)
    ensures
        tasks_of(rs, true) matches Some(all) ==> tasks_of(rs, false) == Some(without_completed(all)),
    decreases rs.len(),
{
    if rs.len() > 0 {
        law_tasks_without_completed(rs.drop_last());
        if tasks_of(rs, true) is Some {
            let all = tasks_of(rs, true)->0;
            let prev = tasks_of(rs.drop_last(), true)->0;
            let (href, m) = rs.last();
            match lookup(m, "calendar-data"@) {
                Some(data) => {
                    if holds_component(data, "VTODO"@) && task_convertible(data) {
                        let t = task_of(href, data);
                        assert(all == prev.push(t));
                        assert(all.drop_last() =~= prev);
                        assert(all.last() == t);
                    } else {
                        assert(all == prev);
                    }
                },
                None => {
                    assert(all == prev);
                },
            }
        }
    }
}

/// Trailing slashes of the base URL do not matter: the home URLs of a base
/// with one more `/` are the same.
pub proof fn law_home_url_ignores_trailing_slash(
    state: crate::models::AppState,
    base: String,
    collection: Seq<char>,
)
    requires
        base@ == state.caldav_base_url@.push('/'),
    ensures
        home_url((crate::models::AppState { caldav_base_url: base, ..state }), collection)
            == home_url(state, collection),
{
    let s = state.caldav_base_url@.push('/');
    assert(s.last() == '/');
    assert(s.drop_last() =~= state.caldav_base_url@);
}

// ---------------------------------------------------------------------------
// What the operations give
// ---------------------------------------------------------------------------

/// A plain value carries back in any component, the `END:` marker holding a
/// `:` that the value lacks.
proof fn lemma_plain_for(v: Seq<char>, c: Seq<char>)
    requires
        plain_value(v),
    ensures
        plain_for(v, c),
{
    reveal_strlit("END:");
    let em = end_marker(c);
    assert(em[3] == ':');
    assert(clean_line(v));
    if has_text(v, em) {
        let q = choose|q: int| occurs_at(v, em, q);
        assert(v.subrange(q, q + em.len())[3] == v[q + 3]);
    }
}

/// A decimal number is a plain value.
proof fn lemma_decimal_plain(n: nat)
    ensures
        plain_value(decimal(n)),
{
    lemma_decimal_digits(n);
    let d = decimal(n);
    assert(is_digit(d[d.len() - 1]));
}

/// The names of a task's properties are distinct.
proof fn lemma_task_names_distinct()
    ensures
        "UID"@ != "SUMMARY"@,
        "UID"@ != "DESCRIPTION"@,
        "UID"@ != "DUE"@,
        "UID"@ != "STATUS"@,
        "UID"@ != "PRIORITY"@,
        "UID"@ != "DTSTAMP"@,
        "UID"@ != "LAST-MODIFIED"@,
        "UID"@ != "SEQUENCE"@,
        "SUMMARY"@ != "DESCRIPTION"@,
        "SUMMARY"@ != "DUE"@,
        "SUMMARY"@ != "STATUS"@,
        "SUMMARY"@ != "PRIORITY"@,
        "SUMMARY"@ != "DTSTAMP"@,
        "SUMMARY"@ != "LAST-MODIFIED"@,
        "SUMMARY"@ != "SEQUENCE"@,
        "DESCRIPTION"@ != "DUE"@,
        "DESCRIPTION"@ != "STATUS"@,
        "DESCRIPTION"@ != "PRIORITY"@,
        "DESCRIPTION"@ != "DTSTAMP"@,
        "DESCRIPTION"@ != "LAST-MODIFIED"@,
        "DESCRIPTION"@ != "SEQUENCE"@,
        "DUE"@ != "STATUS"@,
        "DUE"@ != "PRIORITY"@,
        "DUE"@ != "DTSTAMP"@,
        "DUE"@ != "LAST-MODIFIED"@,
        "DUE"@ != "SEQUENCE"@,
        "STATUS"@ != "PRIORITY"@,
        "STATUS"@ != "DTSTAMP"@,
        "STATUS"@ != "LAST-MODIFIED"@,
        "STATUS"@ != "SEQUENCE"@,
        "PRIORITY"@ != "DTSTAMP"@,
        "PRIORITY"@ != "LAST-MODIFIED"@,
        "PRIORITY"@ != "SEQUENCE"@,
        "DTSTAMP"@ != "LAST-MODIFIED"@,
        "DTSTAMP"@ != "SEQUENCE"@,
        "LAST-MODIFIED"@ != "SEQUENCE"@,
{
    reveal_strlit("UID");
    reveal_strlit("SUMMARY");
    reveal_strlit("DESCRIPTION");
    reveal_strlit("DUE");
    reveal_strlit("STATUS");
    reveal_strlit("PRIORITY");
    reveal_strlit("DTSTAMP");
    reveal_strlit("LAST-MODIFIED");
    reveal_strlit("SEQUENCE");
    assert("UID"@.len() != "SUMMARY"@.len());
    assert("UID"@.len() != "DESCRIPTION"@.len());
    assert("UID"@[0] != "DUE"@[0]);
    assert("UID"@.len() != "STATUS"@.len());
    assert("UID"@.len() != "PRIORITY"@.len());
    assert("UID"@.len() != "DTSTAMP"@.len());
    assert("UID"@.len() != "LAST-MODIFIED"@.len());
    assert("UID"@.len() != "SEQUENCE"@.len());
    assert("SUMMARY"@.len() != "DESCRIPTION"@.len());
    assert("SUMMARY"@.len() != "DUE"@.len());
    assert("SUMMARY"@.len() != "STATUS"@.len());
    assert("SUMMARY"@.len() != "PRIORITY"@.len());
    assert("SUMMARY"@[0] != "DTSTAMP"@[0]);
    assert("SUMMARY"@.len() != "LAST-MODIFIED"@.len());
    assert("SUMMARY"@.len() != "SEQUENCE"@.len());
    assert("DESCRIPTION"@.len() != "DUE"@.len());
    assert("DESCRIPTION"@.len() != "STATUS"@.len());
    assert("DESCRIPTION"@.len() != "PRIORITY"@.len());
    assert("DESCRIPTION"@.len() != "DTSTAMP"@.len());
    assert("DESCRIPTION"@.len() != "LAST-MODIFIED"@.len());
    assert("DESCRIPTION"@.len() != "SEQUENCE"@.len());
    assert("DUE"@.len() != "STATUS"@.len());
    assert("DUE"@.len() != "PRIORITY"@.len());
    assert("DUE"@.len() != "DTSTAMP"@.len());
    assert("DUE"@.len() != "LAST-MODIFIED"@.len());
    assert("DUE"@.len() != "SEQUENCE"@.len());
    assert("STATUS"@.len() != "PRIORITY"@.len());
    assert("STATUS"@.len() != "DTSTAMP"@.len());
    assert("STATUS"@.len() != "LAST-MODIFIED"@.len());
    assert("STATUS"@.len() != "SEQUENCE"@.len());
    assert("PRIORITY"@.len() != "DTSTAMP"@.len());
    assert("PRIORITY"@.len() != "LAST-MODIFIED"@.len());
    assert("PRIORITY"@[0] != "SEQUENCE"@[0]);
    assert("DTSTAMP"@.len() != "LAST-MODIFIED"@.len());
    assert("DTSTAMP"@.len() != "SEQUENCE"@.len());
    assert("LAST-MODIFIED"@.len() != "SEQUENCE"@.len());
}

/// Listing a created task gives back what it was created with: its
/// identifier, summary, description and priority (0 where none is given),
/// as `NEEDS-ACTION`; the stored text holds `PRIORITY` as the decimal of the
/// given priority.  This holds where the identifier is a version 4 UUID, the
/// time a UTC stamp, and the summary, description and due date are plain
/// (see `plain_for`).
pub proof fn law_created_task_listed(
    args: crate::models::CreateTaskArgs,
    uid: Seq<char>,
    due: Option<Seq<char>>,
    now: Seq<char>,
    href: Seq<char>,
)
    requires
        is_uuid_v4(uid),
        is_utc_stamp(now),
        plain_for(args.summary@, "VTODO"@),
        plain_for(opt_text(args.description), "VTODO"@),
        due matches Some(d) ==> plain_for(d, "VTODO"@),
    ensures
        ({
            let text = task_text(new_task_props(args, uid, due, now), Seq::empty());
            let t = task_of(href, text);
            let given: u8 = match args.priority {
                Some(n) => n,
                None => 0u8,
            };
            &&& t.uid == uid
            &&& t.url == href
            &&& t.summary == args.summary@
            &&& t.description == (match args.description {
                Some(d) => d@,
                None => Seq::empty(),
            })
            &&& t.status == "NEEDS-ACTION"@
            &&& t.priority == given
            &&& lookup(component_props(text, "VTODO"@), "PRIORITY"@) == Some(decimal(given as nat))
        }),
{
    reveal_strlit("UID");
    reveal_strlit("SUMMARY");
    reveal_strlit("DESCRIPTION");
    reveal_strlit("DUE");
    reveal_strlit("STATUS");
    reveal_strlit("PRIORITY");
    reveal_strlit("DTSTAMP");
    reveal_strlit("LAST-MODIFIED");
    reveal_strlit("SEQUENCE");
    reveal_strlit("NEEDS-ACTION");
    reveal_strlit("0");
    lemma_task_names_distinct();
    let given: u8 = match args.priority {
        Some(n) => n,
        None => 0u8,
    };
    let pr = decimal(given as nat);
    lemma_decimal_plain(given as nat);
    lemma_decimal_digits(given as nat);
    law_decimal_reads_back(given as nat, 255);
    lemma_uuid_plain(uid);
    lemma_stamp_plain(now);
    lemma_plain_for(uid, "VTODO"@);
    lemma_plain_for(now, "VTODO"@);
    lemma_plain_for(pr, "VTODO"@);
    assert(plain_value("NEEDS-ACTION"@)) by {
        assert(!is_white_space("NEEDS-ACTION"@.last()));
    }
    lemma_plain_for("NEEDS-ACTION"@, "VTODO"@);
    assert(plain_value("0"@));
    lemma_plain_for("0"@, "VTODO"@);
    let e0 = Seq::<(Seq<char>, Seq<char>)>::empty();
    let m1 = insert(e0, "UID"@, uid);
    let m2 = insert(m1, "SUMMARY"@, args.summary@);
    let m3 = insert(m2, "DESCRIPTION"@, opt_text(args.description));
    let m4 = match due {
        Some(d) => insert(m3, "DUE"@, d),
        None => m3,
    };
    let m5 = insert(m4, "STATUS"@, "NEEDS-ACTION"@);
    let m6 = insert(m5, "PRIORITY"@, pr);
    let m7 = insert(m6, "DTSTAMP"@, now);
    let m8 = insert(m7, "LAST-MODIFIED"@, now);
    let m = insert(m8, "SEQUENCE"@, "0"@);
    assert(m == new_task_props(args, uid, due, now));
    assert forall|k: Seq<char>| #[trigger] lookup(m, k) == (if k == "SEQUENCE"@ {
        Some("0"@)
    } else if k == "LAST-MODIFIED"@ {
        Some(now)
    } else if k == "DTSTAMP"@ {
        Some(now)
    } else if k == "PRIORITY"@ {
        Some(pr)
    } else if k == "STATUS"@ {
        Some("NEEDS-ACTION"@)
    } else if k == "DUE"@ && due is Some {
        due
    } else if k == "DESCRIPTION"@ {
        Some(opt_text(args.description))
    } else if k == "SUMMARY"@ {
        Some(args.summary@)
    } else if k == "UID"@ {
        Some(uid)
    } else {
        None
    }) by {
        lemma_lookup_insert(e0, "UID"@, uid, k);
        lemma_lookup_insert(m1, "SUMMARY"@, args.summary@, k);
        lemma_lookup_insert(m2, "DESCRIPTION"@, opt_text(args.description), k);
        match due {
            Some(d) => {
                lemma_lookup_insert(m3, "DUE"@, d, k);
            },
            None => {},
        }
        lemma_lookup_insert(m4, "STATUS"@, "NEEDS-ACTION"@, k);
        lemma_lookup_insert(m5, "PRIORITY"@, pr, k);
        lemma_lookup_insert(m6, "DTSTAMP"@, now, k);
        lemma_lookup_insert(m7, "LAST-MODIFIED"@, now, k);
        lemma_lookup_insert(m8, "SEQUENCE"@, "0"@, k);
        assert(lookup(e0, k) is None);
    }
    assert forall|j: int| 0 <= j < task_keys().len() implies (lookup(m, #[trigger] task_keys()[j]) matches Some(
        v,
    ) ==> plain_for(v, "VTODO"@)) by {}
    law_task_written_reads(m);
    let read = component_props(task_text(m, Seq::empty()), "VTODO"@);
    assert(task_keys()[0] == "UID"@ && task_keys()[1] == "SUMMARY"@ && task_keys()[2]
        == "DESCRIPTION"@ && task_keys()[4] == "STATUS"@ && task_keys()[5] == "PRIORITY"@);
    assert(lookup(read, "UID"@) == written_value(m, "UID"@));
    assert(lookup(read, "SUMMARY"@) == written_value(m, "SUMMARY"@));
    assert(lookup(read, "DESCRIPTION"@) == written_value(m, "DESCRIPTION"@));
    assert(lookup(read, "STATUS"@) == written_value(m, "STATUS"@));
    assert(lookup(read, "PRIORITY"@) == written_value(m, "PRIORITY"@));
    assert(parse_unsigned(pr, 255) == Some(given as nat));
}

/// A task update that gives a status whose upper case is `NEEDS-ACTION`,
/// `IN-PROCESS`, `COMPLETED` or `CANCELLED` succeeds and stores that upper
/// case, where no due date given fails to convert and the sequence number
/// can go up.
pub proof fn law_task_status_accepted(
    m0: PropsModel,
    args: crate::models::UpdateTaskArgs,
    now: Seq<char>,
    s: String,
)
    requires
        args.status == Some(s),
        upper_of(s@) == "NEEDS-ACTION"@ || upper_of(s@) == "IN-PROCESS"@ || upper_of(s@)
            == "COMPLETED"@ || upper_of(s@) == "CANCELLED"@,
        args.due matches Some(d) ==> ical_of_iso(d@) is Ok,
        sequence_of(m0) < u32::MAX,
    ensures
        updated_task(m0, args, now) matches Some(Ok(m1)) && lookup(m1, "STATUS"@) == Some(
            upper_of(s@),
        ),
{
    reveal_strlit("SEQUENCE");
    reveal_strlit("STATUS");
    reveal_strlit("PRIORITY");
    reveal_strlit("DUE");
    reveal_strlit("SUMMARY");
    reveal_strlit("DESCRIPTION");
    reveal_strlit("LAST-MODIFIED");
    reveal_strlit("DTSTAMP");
    let st = upper_of(s@);
    lemma_task_names_distinct();
    let m1 = put_opt(put_opt(m0, "SUMMARY"@, args.summary), "DESCRIPTION"@, args.description);
    assert("SEQUENCE"@ != "SUMMARY"@) by {
        assert("SEQUENCE"@.len() != "SUMMARY"@.len());
    }
    assert("SEQUENCE"@ != "DESCRIPTION"@) by {
        assert("SEQUENCE"@.len() != "DESCRIPTION"@.len());
    }
    assert("SEQUENCE"@ != "DUE"@) by {
        assert("SEQUENCE"@.len() != "DUE"@.len());
    }
    lemma_put_opt(m0, "SUMMARY"@, args.summary, "SEQUENCE"@);
    lemma_put_opt(put_opt(m0, "SUMMARY"@, args.summary), "DESCRIPTION"@, args.description, "SEQUENCE"@);
    assert(lookup(m1, "SEQUENCE"@) == lookup(m0, "SEQUENCE"@));
    let m2 = put_time(m1, "DUE"@, args.due)->Ok_0;
    match args.due {
        Some(d) => {
            lemma_lookup_insert(m1, "DUE"@, ical_of_iso(d@)->Ok_0.0, "SEQUENCE"@);
        },
        None => {},
    }
    assert(lookup(m2, "SEQUENCE"@) == lookup(m0, "SEQUENCE"@));
    let m3 = insert(m2, "STATUS"@, st);
    lemma_lookup_insert(m2, "STATUS"@, st, "SEQUENCE"@);
    let m4 = match args.priority {
        Some(n) => insert(m3, "PRIORITY"@, decimal(n as nat)),
        None => m3,
    };
    match args.priority {
        Some(n) => {
            lemma_lookup_insert(m3, "PRIORITY"@, decimal(n as nat), "SEQUENCE"@);
            lemma_lookup_insert(m3, "PRIORITY"@, decimal(n as nat), "STATUS"@);
        },
        None => {},
    }
    lemma_lookup_insert(m2, "STATUS"@, st, "STATUS"@);
    let a = insert(m4, "LAST-MODIFIED"@, now);
    let b = insert(a, "DTSTAMP"@, now);
    lemma_lookup_insert(m4, "LAST-MODIFIED"@, now, "SEQUENCE"@);
    lemma_lookup_insert(a, "DTSTAMP"@, now, "SEQUENCE"@);
    assert(sequence_of(b) == sequence_of(m0));
    assert(crate::writes::valid_task_status(st));
    assert(updated_task(m0, args, now) == Some(Ok::<PropsModel, Seq<char>>(insert(b, "SEQUENCE"@, decimal(sequence_of(b) + 1)))));
    lemma_lookup_insert(m4, "LAST-MODIFIED"@, now, "STATUS"@);
    lemma_lookup_insert(a, "DTSTAMP"@, now, "STATUS"@);
    lemma_lookup_insert(b, "SEQUENCE"@, decimal(sequence_of(b) + 1), "STATUS"@);
}

/// The text of a calendar query for the events between `start` and `end`:
/// inside `VCALENDAR`, the `VEVENT` component with that time range.
pub open spec fn vevent_time_filter(start: Seq<char>, end: Seq<char>) -> Seq<char> {
    "<c:comp-filter name=\"VCALENDAR\">
      <c:comp-filter name=\"VEVENT\">
        <c:time-range start=\""@ + start + "\" end=\""@ + end + "\"/>"@
}

/// The REPORT that lists events asks for `VEVENT` components (inside
/// `VCALENDAR`) in the time range from `start` to `end`.
pub proof fn law_events_report_filters_events(start: Seq<char>, end: Seq<char>)
    ensures
        has_text(events_report(start, end), vevent_time_filter(start, end)),
{
    let a = "<?xml version=\"1.0\" encoding=\"utf-8\"?>
<c:calendar-query xmlns:d=\"DAV:\" xmlns:c=\"urn:ietf:params:xml:ns:caldav\">
  <d:prop><d:getetag/><c:calendar-data/></d:prop>
  <c:filter>
    <c:comp-filter name=\"VCALENDAR\">
      <c:comp-filter name=\"VEVENT\">
        <c:time-range start=\""@;
    let p = "<?xml version=\"1.0\" encoding=\"utf-8\"?>
<c:calendar-query xmlns:d=\"DAV:\" xmlns:c=\"urn:ietf:params:xml:ns:caldav\">
  <d:prop><d:getetag/><c:calendar-data/></d:prop>
  <c:filter>
    "@;
    let f = "<c:comp-filter name=\"VCALENDAR\">
      <c:comp-filter name=\"VEVENT\">
        <c:time-range start=\""@;
    let mid = "\" end=\""@;
    let tail = "\"/>
      </c:comp-filter>
    </c:comp-filter>
  </c:filter>
</c:calendar-query>"@;
    let close = "\"/>"@;
    let rest = "
      </c:comp-filter>
    </c:comp-filter>
  </c:filter>
</c:calendar-query>"@;
    reveal_strlit("<?xml version=\"1.0\" encoding=\"utf-8\"?>
<c:calendar-query xmlns:d=\"DAV:\" xmlns:c=\"urn:ietf:params:xml:ns:caldav\">
  <d:prop><d:getetag/><c:calendar-data/></d:prop>
  <c:filter>
    <c:comp-filter name=\"VCALENDAR\">
      <c:comp-filter name=\"VEVENT\">
        <c:time-range start=\"");
    reveal_strlit("<?xml version=\"1.0\" encoding=\"utf-8\"?>
<c:calendar-query xmlns:d=\"DAV:\" xmlns:c=\"urn:ietf:params:xml:ns:caldav\">
  <d:prop><d:getetag/><c:calendar-data/></d:prop>
  <c:filter>
    ");
    reveal_strlit("<c:comp-filter name=\"VCALENDAR\">
      <c:comp-filter name=\"VEVENT\">
        <c:time-range start=\"");
    reveal_strlit("\"/>
      </c:comp-filter>
    </c:comp-filter>
  </c:filter>
</c:calendar-query>");
    reveal_strlit("\"/>");
    reveal_strlit("
      </c:comp-filter>
    </c:comp-filter>
  </c:filter>
</c:calendar-query>");
    assert(a =~= p + f);
    assert(tail =~= close + rest);
    let body = events_report(start, end);
    let flt = vevent_time_filter(start, end);
    assert(body =~= p + flt + rest);
    assert(body.subrange(p.len() as int, (p.len() + flt.len()) as int) =~= flt);
    assert(occurs_at(body, flt, p.len() as int));
}

/// Creating an event reports what it was created with: the identifier, the
/// URL it is stored at (`<calendar>/<uid>.ics`), the summary, description
/// and location given (empty where none is given), and the start and end as
/// given.
pub proof fn law_created_event_reported(
    args: crate::models::CreateEventArgs,
    uid: Seq<char>,
    now: Seq<char>,
    r: Result<(crate::writes::ResourcePut, crate::models::EventInfo), crate::error::CaldavError>,
)
    requires
        create_event_outcome(args, uid, now, r),
        r is Ok,
    ensures
        ({
            let (put, info) = r->Ok_0;
            &&& put.url@ == member_url(args.calendar_url@, uid, ".ics"@)
            &&& info.uid@ == uid
            &&& info.url@ == put.url@
            &&& info.summary@ == args.summary@
            &&& info.description@ == (match args.description {
                Some(d) => d@,
                None => Seq::empty(),
            })
            &&& info.location@ == (match args.location {
                Some(l) => l@,
                None => Seq::empty(),
            })
            &&& info.start@ == args.start@
            &&& info.end@ == args.end@
        }),
{
}

/// The text of an optional string, empty where there is none.
pub open spec fn given_text(o: Option<String>) -> Seq<char> {
    match o {
        Some(s) => s@,
        None => Seq::empty(),
    }
}

/// Creating a task reports what it was created with: the identifier, the
/// URL it is stored at (`<calendar>/<uid>.ics`), the summary, description
/// and due date given (empty where none is given), `NEEDS-ACTION`, and the
/// priority given (0 where none is given).
pub proof fn law_created_task_reported(
    args: crate::models::CreateTaskArgs,
    uid: Seq<char>,
    now: Seq<char>,
    r: Result<(crate::writes::ResourcePut, crate::models::TaskInfo), crate::error::CaldavError>,
)
    requires
        create_task_outcome(args, uid, now, r),
        r is Ok,
    ensures
        ({
            let (put, info) = r->Ok_0;
            &&& put.url@ == member_url(args.calendar_url@, uid, ".ics"@)
            &&& info.uid@ == uid
            &&& info.url@ == put.url@
            &&& info.summary@ == args.summary@
            &&& info.description@ == given_text(args.description)
            &&& info.due@ == given_text(args.due)
            &&& info.status@ == "NEEDS-ACTION"@
            &&& info.priority == (match args.priority {
                Some(n) => n,
                None => 0u8,
            })
        }),
{
}

/// Creating a contact reports what it was created with: the identifier, the
/// URL it is stored at (`<address book>/<uid>.vcf`), and the name, email,
/// phone, organization and notes given (empty where none is given).
pub proof fn law_created_contact_reported(
    args: crate::models::CreateContactArgs,
    uid: Seq<char>,
    now: Seq<char>,
    put: crate::writes::ResourcePut,
    info: crate::models::ContactInfo,
)
    requires
        create_contact_outcome(args, uid, now, put, info),
    ensures
        put.url@ == member_url(args.address_book_url@, uid, ".vcf"@),
        info.uid@ == uid,
        info.url@ == put.url@,
        info.full_name@ == args.full_name@,
        info.email@ == given_text(args.email),
        info.phone@ == given_text(args.phone),
        info.organization@ == given_text(args.organization),
        info.notes@ == given_text(args.notes),
{
}

} // verus!
