//! Reading the command line's values and the agent's environment settings.

use vstd::prelude::*;

use crate::domain::{date_range_of, date_range_parse, page_range_of, page_range_parse, DateRange, PageRange, SourceId, UpdateDirection};
use crate::error::{concat3, error_message, CrawlError};
use crate::text::{
    ascii_lowercase, chars_of, decimal_text, owned, parse_unsigned, parse_usize, push_char,
    string_from_range, trim, trimmed,
};

verus! {

/// `--page-range start:end`.
pub fn parse_page_range(value: &str) -> (r: Result<PageRange, String>)
    ensures
        r is Ok <==> page_range_of(value@) is Some,
        r matches Ok(p) ==> page_range_of(value@) == Some((p.start as int, p.end as int)),
        r matches Err(m) ==> page_range_parse(value@) matches Err(t) && m@ == "invalid range: "@ + t,
{
    match PageRange::parse(value) {
        Ok(p) => Ok(p),
        Err(e) => Err(e.message()),
    }
}

/// `--date-range YYYY-MM-DD:YYYY-MM-DD`.
pub fn parse_date_range(value: &str) -> (r: Result<DateRange, String>)
    ensures
        r is Ok <==> date_range_of(value@) is Some,
        r matches Ok(d) ==> date_range_of(value@) == Some((d.start as int, d.end as int)),
        r matches Err(m) ==> date_range_parse(value@) matches Err(t) && m@ == "invalid range: "@ + t,
{
    match DateRange::parse(value) {
        Ok(d) => Ok(d),
        Err(e) => Err(e.message()),
    }
}

/// `--direction forward|backward`.
pub fn parse_update_direction(value: &str) -> (r: Result<UpdateDirection, String>)
    ensures
        ascii_lowercase(trim(value@)) == "backward"@ <==> r == Ok::<UpdateDirection, String>(
            UpdateDirection::Backward,
        ),
        ascii_lowercase(trim(value@)) == "forward"@ <==> r == Ok::<UpdateDirection, String>(
            UpdateDirection::Forward,
        ),
        r matches Err(m) ==> m@ == "invalid range: "@ + ("invalid update direction '"@ + value@
            + "'; expected forward or backward"@),
{
    match UpdateDirection::parse(value) {
        Ok(d) => Ok(d),
        Err(e) => {
            let m = e.message();
            Err(m)
        },
    }
}

/// A count of at least one, such as `--limit`.
pub fn parse_positive_usize(value: &str) -> (r: Result<usize, String>)
    ensures
        parse_unsigned(value@, usize::MAX as int) matches Some(n) ==> (n >= 1 ==> r == Ok::<usize, String>(
            n as usize,
        )) && (n == 0 ==> (r matches Err(m) && m@ == "value must be at least 1"@)),
        parse_unsigned(value@, usize::MAX as int) is None ==> (r matches Err(m) && m@ == "'"@ + value@
            + "' is not a positive integer"@),
{
    let parsed = match parse_usize(value) {
        Some(n) => n,
        None => {
            return Err(concat3("'", value, "' is not a positive integer"));
        },
    };
    if parsed == 0 {
        return Err(owned("value must be at least 1"));
    }
    Ok(parsed)
}

/// The parts of `s` between occurrences of `c` (`str::split`).
pub open spec fn split_text(s: Seq<char>, c: char) -> Seq<Seq<char>>
    decreases s.len(),
{
    if s.len() == 0 {
        seq![Seq::empty()]
    } else {
        let rest = split_text(s.drop_last(), c);
        if s.last() == c {
            rest.push(Seq::empty())
        } else {
            rest.update(rest.len() - 1, rest.last().push(s.last()))
        }
    }
}

proof fn lemma_split_nonempty(s: Seq<char>, c: char)
    ensures
        split_text(s, c).len() > 0,
    decreases s.len(),
{
    if s.len() > 0 {
        lemma_split_nonempty(s.drop_last(), c);
    }
}

/// The trimmed parts that are not blank.
pub open spec fn listed_ids(parts: Seq<Seq<char>>) -> Seq<Seq<char>>
    decreases parts.len(),
{
    if parts.len() == 0 {
        Seq::empty()
    } else {
        let rest = listed_ids(parts.drop_last());
        if trim(parts.last()).len() > 0 {
            rest.push(trim(parts.last()))
        } else {
            rest
        }
    }
}

pub open spec fn id_views(ids: Seq<SourceId>) -> Seq<Seq<char>> {
    ids.map_values(|id: SourceId| id@)
}

/// Source identifiers listed with commas, blanks ignored.
pub fn source_ids_from_list(value: &str) -> (r: Vec<SourceId>)
    ensures
        id_views(r@) == listed_ids(split_text(value@, ',')),
{
    let v = chars_of(value);
    let mut ids: Vec<SourceId> = Vec::new();
    let mut start: usize = 0;
    let mut i: usize = 0;
    while i < v.len()
        invariant
            start <= i <= v.len(),
            v@ == value@,
            split_text(v@.take(i as int), ',').len() > 0,
            split_text(v@.take(i as int), ',').last() == v@.subrange(start as int, i as int),
            id_views(ids@) == listed_ids(split_text(v@.take(i as int), ',').drop_last()),
        decreases v.len() - i,
    {
        let ghost prefix = v@.take(i as int);
        let ghost parts = split_text(prefix, ',');
        proof {
            assert(v@.take(i + 1).drop_last() =~= prefix);
            assert(v@.take(i + 1).last() == v@[i as int]);
        }
        if v[i] == ',' {
            let part = string_from_range(&v, start, i);
            let ghost before = ids@;
            push_listed(&mut ids, part.as_str());
            proof {
                let next = split_text(v@.take(i + 1), ',');
                assert(next == parts.push(Seq::empty()));
                assert(next.drop_last() =~= parts);
                assert(parts =~= parts.drop_last().push(parts.last()));
                assert(v@.subrange(i + 1, i + 1) =~= Seq::<char>::empty());
            }
            start = i + 1;
        } else {
            proof {
                let next = split_text(v@.take(i + 1), ',');
                assert(next.drop_last() =~= parts.drop_last());
                assert(v@.subrange(start as int, i + 1) =~= v@.subrange(start as int, i as int).push(
                    v@[i as int],
                ));
            }
        }
        i = i + 1;
    }
    let part = string_from_range(&v, start, v.len());
    push_listed(&mut ids, part.as_str());
    proof {
        let parts = split_text(v@.take(v.len() as int), ',');
        assert(v@.take(v.len() as int) =~= v@);
        assert(parts =~= parts.drop_last().push(parts.last()));
    }
    ids
}

fn push_listed(ids: &mut Vec<SourceId>, part: &str)
    ensures
        id_views(final(ids)@) == id_views(old(ids)@) + (if trim(part@).len() > 0 {
            seq![trim(part@)]
        } else {
            Seq::<Seq<char>>::empty()
        }),
{
    match SourceId::new(part) {
        Ok(id) => {
            let ghost before = ids@;
            ids.push(id);
            assert(id_views(ids@) =~= id_views(before).push(trim(part@)));
        },
        Err(_) => {
            assert(id_views(ids@) + Seq::<Seq<char>>::empty() =~= id_views(ids@));
        },
    }
}

} // verus!

verus! {

/// The sources to schedule: those named on the command line, else those
/// listed in `BASANGO_CRAWLER_SOURCE_IDS`; at least one is needed.
pub fn scheduled_sources(requested: Vec<SourceId>, listed: Option<&str>) -> (r: Result<Vec<SourceId>, String>)
    ensures
        requested@.len() > 0 ==> r == Ok::<Vec<SourceId>, String>(requested),
        requested@.len() == 0 ==> ({
            let ids = listed_ids(split_text(
                match listed {
                    Some(l) => l@,
                    None => Seq::empty(),
                },
                ',',
            ));
            &&& ids.len() > 0 <==> r is Ok
            &&& r matches Ok(v) ==> id_views(v@) == ids
            &&& r matches Err(m) ==> m@ == "pass --source-id or set BASANGO_CRAWLER_SOURCE_IDS"@
        }),
{
    if requested.len() > 0 {
        return Ok(requested);
    }
    let text = match listed {
        Some(l) => l,
        None => "",
    };
    proof {
        reveal_strlit("");
    }
    let ids = source_ids_from_list(text);
    if ids.len() == 0 {
        return Err(owned("pass --source-id or set BASANGO_CRAWLER_SOURCE_IDS"));
    }
    Ok(ids)
}

/// The agent identifier from `BASANGO_CRAWLER_AGENT_ID`, trimmed; it must
/// not be blank.
pub fn agent_id_from(value: Option<&str>) -> (r: Result<String, CrawlError>)
    ensures
        (value matches Some(v) && trim(v@).len() > 0) <==> r is Ok,
        r matches Ok(id) ==> value is Some && id@ == trim(value->Some_0@),
        r matches Err(e) ==> e is Configuration && e->Configuration_0@
            == "BASANGO_CRAWLER_AGENT_ID is required and must be unique for this crawler"@,
{
    match value {
        Some(v) => {
            let t = trimmed(v);
            if !t.as_str().is_empty() {
                return Ok(t);
            }
        },
        None => {},
    }
    Err(
        CrawlError::Configuration(
            owned("BASANGO_CRAWLER_AGENT_ID is required and must be unique for this crawler"),
        ),
    )
}

} // verus!
