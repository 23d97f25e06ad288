use vstd::prelude::*;

use indexmap::IndexMap;

use crate::chart_index::{ChartsHashMaps, lookup_charts};
use crate::grouping::{apply_group_param, spec_apply_group_param};
use crate::entries::{
    entries_insert, entry_keys, keys_distinct, lemma_entry_index, lemma_insert_keeps_keys_distinct,
};
use crate::host::{ChartsHost, lemma_host_names_parse_back};
use crate::response_dtos::{ChartDto, ChartGroup, ChartView, ResponseDto, ResponseView, chart_views};
use crate::text::{
    ascii_trim_start, contains_seq, filter_alphabetic, is_ascii_white_space, keep_alphabetic,
    spec_upper, spec_trimmed, split_commas,
    split_on, str_contains, string_views, to_uppercase, trim,
};

verus! {

/// What an answer map holds: its entries in their order, each key by its
/// characters and each answer by its model.
pub uninterp spec fn response_map_entries(m: IndexMap<String, ResponseDto>) -> Seq<
    (Seq<char>, ResponseView),
>;

/// Calls `IndexMap::new` for an answer map. The contract claims that the new
/// map has no entries.
#[verifier::external_body]
fn response_map_new() -> (r: IndexMap<String, ResponseDto>)
    ensures
        response_map_entries(r) =~= Seq::empty(),
{
    IndexMap::new()
}

/// Calls `IndexMap::insert` on an answer map. The contract claims what the
/// source documents: an entry with an equal key keeps its place and takes the
/// new value; otherwise the pair is added last.
#[verifier::external_body]
fn response_map_insert(m: &mut IndexMap<String, ResponseDto>, key: String, value: ResponseDto)
    ensures
        response_map_entries(*final(m)) == entries_insert(
            response_map_entries(*old(m)),
            key@,
            value@,
        ),
{
    m.insert(key, value);
}

/// The host that a request asks for, the FAA when it names none or an
/// unknown one.
pub open spec fn requested_host(host: Option<Seq<char>>) -> ChartsHost {
    match ChartsHost::spec_try_from(host) {
        Some(h) => h,
        None => ChartsHost::Faa,
    }
}

/// The views of an optional string.
pub open spec fn opt_view(s: Option<String>) -> Option<Seq<char>> {
    match s {
        Some(s) => Some(s@),
        None => None,
    }
}

/// The answer entries for the airport identifiers of a request, in order:
/// each identifier uppercased, with the answer for its charts under the
/// grouping code, identifiers without charts left out.
pub open spec fn answer_entries(
    pieces: Seq<Seq<char>>,
    maps: ChartsHashMaps,
    group: Option<i32>,
    host: ChartsHost,
) -> Seq<(Seq<char>, ResponseView)>
    decreases pieces.len(),
{
    if pieces.len() == 0 {
        Seq::empty()
    } else {
        let e = answer_entries(pieces.drop_last(), maps, group, host);
        let up = spec_upper(pieces.last());
        match maps.spec_lookup_charts(up, host) {
            Some(cs) => entries_insert(e, up, spec_apply_group_param(cs, group)),
            None => e,
        }
    }
}

/// The answer to a chart request.
pub enum ChartsAnswer {
    /// No airport was given (status 404).
    MissingAirport,
    /// The grouping code is not one of 1 to 7 (status 403).
    InvalidGroup,
    /// The charts by airport identifier (status 200).
    Found(IndexMap<String, ResponseDto>),
}

/// The model of the answer to a chart request for the given airports,
/// grouping code and host.
pub open spec fn spec_charts_answer(
    r: ChartsAnswer,
    maps: ChartsHashMaps,
    apt: Option<Seq<char>>,
    group: Option<i32>,
    host: Option<Seq<char>>,
) -> bool {
    if apt is None || spec_trimmed(apt->0).len() == 0 {
        r is MissingAirport
    } else if group matches Some(i) && !(1 <= i <= 7) {
        r is InvalidGroup
    } else {
        r matches ChartsAnswer::Found(m) && response_map_entries(m) == answer_entries(
            split_on(apt->0, ','),
            maps,
            group,
            requested_host(host),
        )
    }
}

/// The host that a request asks for, the FAA when it names none or an
/// unknown one.
pub fn host_or_faa(host: &Option<String>) -> (h: ChartsHost)
    ensures
        h == requested_host(opt_view(*host)),
{
    match ChartsHost::try_from(host) {
        Some(h) => h,
        None => ChartsHost::Faa,
    }
}

/// Answers a chart request: a comma-separated list of airport identifiers,
/// an optional grouping code and an optional host.
pub fn charts_response(
    maps: &ChartsHashMaps,
    apt: &Option<String>,
    group: Option<i32>,
    host: &Option<String>,
) -> (r: ChartsAnswer)
    ensures
        spec_charts_answer(r, *maps, opt_view(*apt), group, opt_view(*host)),
{
    let apt_str = match apt {
        None => {
            return ChartsAnswer::MissingAirport;
        },
        Some(a) => a,
    };
    if trim(apt_str.as_str()).is_empty() {
        return ChartsAnswer::MissingAirport;
    }
    if let Some(i) = group {
        if !(1 <= i && i <= 7) {
            return ChartsAnswer::InvalidGroup;
        }
    }
    let host = host_or_faa(host);
    let mut results = response_map_new();
    let pieces = split_commas(apt_str.as_str());
    let ghost all = string_views(pieces@);
    let mut n: usize = 0;
    while n < pieces.len()
        invariant
            all == string_views(pieces@),
            all == split_on(apt_str@, ','),
            n <= pieces@.len(),
            response_map_entries(results) == answer_entries(all.take(n as int), *maps, group, host),
        decreases pieces@.len() - n,
    {
        assert(all.take(n + 1).drop_last() =~= all.take(n as int));
        assert(all.take(n + 1).last() == pieces@[n as int]@);
        let airport_uppercase = to_uppercase(pieces[n].as_str());
        match lookup_charts(airport_uppercase.as_str(), host, maps) {
            Some(charts) => {
                let answer = apply_group_param(charts.as_slice(), group);
                response_map_insert(&mut results, airport_uppercase, answer);
            },
            None => {},
        }
        n = n + 1;
    }
    assert(all.take(pieces@.len() as int) =~= all);
    ChartsAnswer::Found(results)
}

/// The first chart whose name contains `needle`.
pub open spec fn first_named(charts: Seq<ChartView>, needle: Seq<char>) -> Option<int>
    decreases charts.len(),
{
    if charts.len() == 0 {
        None
    } else {
        match first_named(charts.drop_last(), needle) {
            Some(i) => Some(i),
            None => if contains_seq(charts.last().chart_name, needle) {
                Some(charts.len() - 1)
            } else {
                None
            },
        }
    }
}

/// A departure or arrival procedure.
pub open spec fn is_procedure(c: ChartView) -> bool {
    c.chart_group == ChartGroup::Arrivals || c.chart_group == ChartGroup::Departures
}

/// The first departure or arrival whose name contains `needle`.
pub open spec fn first_procedure_named(charts: Seq<ChartView>, needle: Seq<char>) -> Option<int>
    decreases charts.len(),
{
    if charts.len() == 0 {
        None
    } else {
        match first_procedure_named(charts.drop_last(), needle) {
            Some(i) => Some(i),
            None => if is_procedure(charts.last()) && contains_seq(
                charts.last().chart_name,
                needle,
            ) {
                Some(charts.len() - 1)
            } else {
                None
            },
        }
    }
}

/// The PDF path of the chart a search picks: the first chart whose name
/// contains the uppercased search; else the first departure or arrival whose
/// name contains the uppercased letters of the search.
pub open spec fn spec_pick_chart(
    charts: Seq<ChartView>,
    search_upper: Seq<char>,
    letters_upper: Seq<char>,
) -> Option<Seq<char>> {
    match first_named(charts, search_upper) {
        Some(i) => Some(charts[i].pdf_path),
        None => match first_procedure_named(charts, letters_upper) {
            Some(i) => Some(charts[i].pdf_path),
            None => None,
        },
    }
}

/// The first chart whose name contains `needle`.
fn find_first_named(charts: &[ChartDto], needle: &str) -> (r: Option<usize>)
    ensures
        first_named(chart_views(charts@), needle@) == (match r {
            Some(i) => Some(i as int),
            None => None,
        }),
        r matches Some(i) ==> i < charts@.len(),
{
    let ghost all = chart_views(charts@);
    let mut i: usize = 0;
    while i < charts.len()
        invariant
            all == chart_views(charts@),
            i <= charts@.len(),
            first_named(all.take(i as int), needle@) is None,
        decreases charts@.len() - i,
    {
        assert(all.take(i + 1).drop_last() =~= all.take(i as int));
        if str_contains(charts[i].chart_name.as_str(), needle) {
            proof {
                lemma_first_named_prefix(all, needle@, i as int + 1);
            }
            return Some(i);
        }
        i = i + 1;
    }
    assert(all.take(charts@.len() as int) =~= all);
    None
}

/// The first departure or arrival whose name contains `needle`.
fn find_first_procedure_named(charts: &[ChartDto], needle: &str) -> (r: Option<usize>)
    ensures
        first_procedure_named(chart_views(charts@), needle@) == (match r {
            Some(i) => Some(i as int),
            None => None,
        }),
        r matches Some(i) ==> i < charts@.len(),
{
    let ghost all = chart_views(charts@);
    let mut i: usize = 0;
    while i < charts.len()
        invariant
            all == chart_views(charts@),
            i <= charts@.len(),
            first_procedure_named(all.take(i as int), needle@) is None,
        decreases charts@.len() - i,
    {
        assert(all.take(i + 1).drop_last() =~= all.take(i as int));
        let g = charts[i].chart_group;
        if (g == ChartGroup::Arrivals || g == ChartGroup::Departures) && str_contains(
            charts[i].chart_name.as_str(),
            needle,
        ) {
            proof {
                lemma_first_procedure_named_prefix(all, needle@, i as int + 1);
            }
            return Some(i);
        }
        i = i + 1;
    }
    assert(all.take(charts@.len() as int) =~= all);
    None
}

/// A first match found in a prefix is the first match of the whole list.
proof fn lemma_first_named_prefix(charts: Seq<ChartView>, needle: Seq<char>, n: int)
    requires
        0 <= n <= charts.len(),
        first_named(charts.take(n), needle) is Some,
    ensures
        first_named(charts, needle) == first_named(charts.take(n), needle),
    decreases charts.len() - n,
{
    if n < charts.len() {
        assert(charts.take(n + 1).drop_last() =~= charts.take(n));
        lemma_first_named_prefix(charts, needle, n + 1);
    } else {
        assert(charts.take(n) =~= charts);
    }
}

/// A first match found in a prefix is the first match of the whole list.
proof fn lemma_first_procedure_named_prefix(charts: Seq<ChartView>, needle: Seq<char>, n: int)
    requires
        0 <= n <= charts.len(),
        first_procedure_named(charts.take(n), needle) is Some,
    ensures
        first_procedure_named(charts, needle) == first_procedure_named(charts.take(n), needle),
    decreases charts.len() - n,
{
    if n < charts.len() {
        assert(charts.take(n + 1).drop_last() =~= charts.take(n));
        lemma_first_procedure_named_prefix(charts, needle, n + 1);
    } else {
        assert(charts.take(n) =~= charts);
    }
}

/// The PDF path of the chart a search picks among an airport's charts, given
/// the uppercased search and the uppercased letters of the search.
pub fn find_chart_in(charts: &[ChartDto], search_upper: &str, letters_upper: &str) -> (r: Option<
    String,
>)
    ensures
        opt_view(r) == spec_pick_chart(chart_views(charts@), search_upper@, letters_upper@),
{
    match find_first_named(charts, search_upper) {
        Some(i) => Some(charts[i].pdf_path.clone()),
        None => match find_first_procedure_named(charts, letters_upper) {
            Some(i) => Some(charts[i].pdf_path.clone()),
            None => None,
        },
    }
}

/// The PDF path that a chart search for an airport redirects to: `None` when
/// the airport has no charts or no chart matches.
pub open spec fn spec_find_chart_pdf(
    maps: ChartsHashMaps,
    apt_id: Seq<char>,
    chart_search: Seq<char>,
    host: Option<Seq<char>>,
) -> Option<Seq<char>> {
    match maps.spec_lookup_charts(spec_upper(apt_id), requested_host(host)) {
        Some(cs) => spec_pick_chart(
            cs,
            spec_upper(chart_search),
            spec_upper(keep_alphabetic(chart_search)),
        ),
        None => None,
    }
}

/// The PDF path that a chart search for an airport redirects to, under the
/// requested host: the first of the airport's charts whose name contains the
/// uppercased search, else the first departure or arrival whose name
/// contains the uppercased letters of the search.
pub fn find_chart_pdf(
    maps: &ChartsHashMaps,
    apt_id: &str,
    chart_search: &str,
    host: &Option<String>,
) -> (r: Option<String>)
    ensures
        opt_view(r) == spec_find_chart_pdf(*maps, apt_id@, chart_search@, opt_view(*host)),
{
    let host = host_or_faa(host);
    let apt_upper = to_uppercase(apt_id);
    match lookup_charts(apt_upper.as_str(), host, maps) {
        Some(charts) => {
            let search_upper = to_uppercase(chart_search);
            let letters = filter_alphabetic(chart_search);
            let letters_upper = to_uppercase(letters.as_str());
            find_chart_in(charts.as_slice(), search_upper.as_str(), letters_upper.as_str())
        },
        None => None,
    }
}

/// An answer names each airport at most once, whatever identifiers (and
/// repetitions of them) the request lists.
pub proof fn lemma_answer_keys_distinct(
    pieces: Seq<Seq<char>>,
    maps: ChartsHashMaps,
    group: Option<i32>,
    host: ChartsHost,
)
    ensures
        keys_distinct(answer_entries(pieces, maps, group, host)),
    decreases pieces.len(),
{
    if pieces.len() > 0 {
        lemma_answer_keys_distinct(pieces.drop_last(), maps, group, host);
        let e = answer_entries(pieces.drop_last(), maps, group, host);
        let up = spec_upper(pieces.last());
        if let Some(cs) = maps.spec_lookup_charts(up, host) {
            lemma_insert_keeps_keys_distinct(e, up, spec_apply_group_param(cs, group));
        }
    }
}

/// A request that names no host, or one that is not a host, is answered as a
/// request for the FAA host: the host parameter then means `FAA`.
pub proof fn lemma_unknown_host_is_faa(host: Option<Seq<char>>)
    requires
        ChartsHost::spec_try_from(host) is None,
    ensures
        requested_host(host) == ChartsHost::Faa,
        requested_host(host) == requested_host(Some("FAA"@)),
        forall|r: ChartsAnswer, maps: ChartsHashMaps, apt: Option<Seq<char>>, group: Option<i32>|
            spec_charts_answer(r, maps, apt, group, host) == spec_charts_answer(
                r,
                maps,
                apt,
                group,
                Some("FAA"@),
            ),
        forall|maps: ChartsHashMaps, apt: Seq<char>, search: Seq<char>|
            spec_find_chart_pdf(maps, apt, search, host) == spec_find_chart_pdf(
                maps,
                apt,
                search,
                Some("FAA"@),
            ),
{
    lemma_host_names_parse_back();
}

/// Removing leading ASCII white space from ASCII white space leaves nothing.
proof fn lemma_trim_blank(s: Seq<char>)
    requires
        forall|i: int| 0 <= i < s.len() ==> is_ascii_white_space(#[trigger] s[i]),
    ensures
        ascii_trim_start(s).len() == 0,
    decreases s.len(),
{
    if s.len() > 0 {
        assert forall|i: int| 0 <= i < s.drop_first().len() implies is_ascii_white_space(
            #[trigger] s.drop_first()[i],
        ) by {
            assert(s.drop_first()[i] == s[i + 1]);
        }
        lemma_trim_blank(s.drop_first());
    }
}

/// A request whose airport list is empty or only ASCII white space is
/// answered as naming no airport.
pub proof fn lemma_blank_airport_is_missing(
    r: ChartsAnswer,
    maps: ChartsHashMaps,
    apt: Seq<char>,
    group: Option<i32>,
    host: Option<Seq<char>>,
)
    requires
        forall|i: int| 0 <= i < apt.len() ==> is_ascii_white_space(#[trigger] apt[i]),
    ensures
        spec_charts_answer(r, maps, Some(apt), group, host) == (r is MissingAirport),
{
    lemma_trim_blank(apt);
    assert forall|i: int| 0 <= i < apt.len() implies '\0' <= #[trigger] apt[i] <= '\u{7f}' by {
        assert(is_ascii_white_space(apt[i]));
    }
}

/// The name search finds the least position whose chart name contains the
/// needle, and finds nothing exactly when no chart name (the last included)
/// contains it.
pub proof fn lemma_first_named_is_least(charts: Seq<ChartView>, needle: Seq<char>)
    ensures
        first_named(charts, needle) matches Some(i) ==> 0 <= i < charts.len() && contains_seq(
            charts[i].chart_name,
            needle,
        ) && forall|j: int| 0 <= j < i ==> !contains_seq(#[trigger] charts[j].chart_name, needle),
        first_named(charts, needle) is None <==> forall|j: int|
            0 <= j < charts.len() ==> !contains_seq(#[trigger] charts[j].chart_name, needle),
    decreases charts.len(),
{
    if charts.len() > 0 {
        let prev = charts.drop_last();
        lemma_first_named_is_least(prev, needle);
        assert forall|j: int| 0 <= j < prev.len() implies prev[j] == charts[j] by {}
        if first_named(prev, needle) is None && !contains_seq(charts.last().chart_name, needle) {
            assert forall|j: int| 0 <= j < charts.len() implies !contains_seq(
                #[trigger] charts[j].chart_name,
                needle,
            ) by {
                if j < prev.len() {
                    assert(prev[j] == charts[j]);
                }
            }
        }
    }
}

/// The search among departures and arrivals finds the least position whose
/// chart is a departure or an arrival with a name containing the needle, and
/// finds nothing exactly when there is no such chart (the last included).
pub proof fn lemma_first_procedure_named_is_least(charts: Seq<ChartView>, needle: Seq<char>)
    ensures
        first_procedure_named(charts, needle) matches Some(i) ==> 0 <= i < charts.len() && (
        charts[i].chart_group == ChartGroup::Arrivals || charts[i].chart_group
            == ChartGroup::Departures) && contains_seq(charts[i].chart_name, needle) && forall|
            j: int,
        |
            0 <= j < i ==> !((#[trigger] charts[j].chart_group == ChartGroup::Arrivals
                || charts[j].chart_group == ChartGroup::Departures) && contains_seq(
                charts[j].chart_name,
                needle,
            )),
        first_procedure_named(charts, needle) is None <==> forall|j: int|
            0 <= j < charts.len() ==> !((#[trigger] charts[j].chart_group == ChartGroup::Arrivals
                || charts[j].chart_group == ChartGroup::Departures) && contains_seq(
                charts[j].chart_name,
                needle,
            )),
    decreases charts.len(),
{
    if charts.len() > 0 {
        let prev = charts.drop_last();
        lemma_first_procedure_named_is_least(prev, needle);
        assert forall|j: int| 0 <= j < prev.len() implies prev[j] == charts[j] by {}
    }
}

/// Without a grouping code, every airport of the answer gets the flat list
/// of all the charts its lookup finds, and every listed airport whose lookup
/// finds charts is in the answer.
pub proof fn lemma_no_group_answers_all_charts(
    pieces: Seq<Seq<char>>,
    maps: ChartsHashMaps,
    host: ChartsHost,
)
    ensures
        forall|i: int|
            0 <= i < answer_entries(pieces, maps, None, host).len() ==> {
                let e = #[trigger] answer_entries(pieces, maps, None, host)[i];
                &&& maps.spec_lookup_charts(e.0, host) is Some
                &&& e.1 == ResponseView::Charts(maps.spec_lookup_charts(e.0, host)->0)
            },
        forall|p: int|
            0 <= p < pieces.len() && (#[trigger] maps.spec_lookup_charts(
                spec_upper(pieces[p]),
                host,
            )) is Some ==> entry_keys(answer_entries(pieces, maps, None, host)).contains(
                spec_upper(pieces[p]),
            ),
    decreases pieces.len(),
{
    if pieces.len() > 0 {
        let prev = pieces.drop_last();
        lemma_no_group_answers_all_charts(prev, maps, host);
        lemma_answer_keys_distinct(prev, maps, None, host);
        let e = answer_entries(prev, maps, None, host);
        let up = spec_upper(pieces.last());
        let e2 = answer_entries(pieces, maps, None, host);
        match maps.spec_lookup_charts(up, host) {
            Some(cs) => {
                let v = ResponseView::Charts(cs);
                lemma_entry_index(e, up);
                lemma_insert_keeps_keys_distinct(e, up, v);
                assert forall|i: int| 0 <= i < e2.len() implies {
                    let x = #[trigger] e2[i];
                    &&& maps.spec_lookup_charts(x.0, host) is Some
                    &&& x.1 == ResponseView::Charts(maps.spec_lookup_charts(x.0, host)->0)
                } by {
                    if i < e.len() && e2[i] != e[i] {
                        assert(e2[i] == (up, v));
                    }
                }
                assert forall|p: int|
                    0 <= p < pieces.len() && (#[trigger] maps.spec_lookup_charts(
                        spec_upper(pieces[p]),
                        host,
                    )) is Some implies entry_keys(e2).contains(spec_upper(pieces[p])) by {
                    if p < prev.len() {
                        assert(prev[p] == pieces[p]);
                        let q = choose|q: int|
                            0 <= q < entry_keys(e).len() && entry_keys(e)[q] == spec_upper(
                                pieces[p],
                            );
                        if entry_keys(e).contains(up) {
                            assert(entry_keys(e2)[q] == spec_upper(pieces[p]));
                        } else {
                            assert(entry_keys(e2)[q] == spec_upper(pieces[p]));
                        }
                    } else {
                        if entry_keys(e).contains(up) {
                        } else {
                            assert(entry_keys(e2)[e.len() as int] == up);
                        }
                    }
                }
            },
            None => {
                assert forall|p: int|
                    0 <= p < pieces.len() && (#[trigger] maps.spec_lookup_charts(
                        spec_upper(pieces[p]),
                        host,
                    )) is Some implies entry_keys(e2).contains(spec_upper(pieces[p])) by {
                    assert(p < prev.len());
                    assert(prev[p] == pieces[p]);
                }
            },
        }
    }
}


/// Every airport of an answer is the uppercase form of a listed identifier
/// whose lookup finds charts, and its answer is those charts under the
/// grouping code.
pub proof fn lemma_answer_entries_come_from_lookups(
    pieces: Seq<Seq<char>>,
    maps: ChartsHashMaps,
    group: Option<i32>,
    host: ChartsHost,
    i: int,
)
    requires
        0 <= i < answer_entries(pieces, maps, group, host).len(),
    ensures
        exists|p: int|
            0 <= p < pieces.len() && spec_upper(#[trigger] pieces[p]) == answer_entries(
                pieces,
                maps,
                group,
                host,
            )[i].0,
        maps.spec_lookup_charts(answer_entries(pieces, maps, group, host)[i].0, host) matches Some(
            cs,
        ) && answer_entries(pieces, maps, group, host)[i].1 == spec_apply_group_param(cs, group),
    decreases pieces.len(),
{
    let prev = pieces.drop_last();
    let e = answer_entries(prev, maps, group, host);
    let e2 = answer_entries(pieces, maps, group, host);
    let up = spec_upper(pieces.last());
    lemma_entry_index(e, up);
    match maps.spec_lookup_charts(up, host) {
        Some(cs) => {
            if i < e.len() && e2[i] == e[i] {
                lemma_answer_entries_come_from_lookups(prev, maps, group, host, i);
                let p = choose|p: int| 0 <= p < prev.len() && spec_upper(#[trigger] prev[p]) == e[i].0;
                assert(pieces[p] == prev[p]);
            } else {
                assert(e2[i] == (up, spec_apply_group_param(cs, group)));
                assert(pieces[pieces.len() - 1] == pieces.last());
            }
        },
        None => {
            lemma_answer_entries_come_from_lookups(prev, maps, group, host, i);
            let p = choose|p: int| 0 <= p < prev.len() && spec_upper(#[trigger] prev[p]) == e[i].0;
            assert(pieces[p] == prev[p]);
        },
    }
}

/// A chart search picks the least chart whose name contains the search;
/// when none does, the least departure or arrival whose name contains the
/// letters; when neither exists, nothing.
pub proof fn lemma_pick_chart_is_least(
    charts: Seq<ChartView>,
    search_upper: Seq<char>,
    letters_upper: Seq<char>,
)
    ensures
        (exists|i: int|
            0 <= i < charts.len() && contains_seq(#[trigger] charts[i].chart_name, search_upper))
            ==> exists|i: int|
            0 <= i < charts.len() && contains_seq(#[trigger] charts[i].chart_name, search_upper)
                && (forall|j: int| 0 <= j < i ==> !contains_seq(#[trigger] charts[j].chart_name, search_upper))
                && spec_pick_chart(charts, search_upper, letters_upper) == Some(charts[i].pdf_path),
        (forall|i: int|
            0 <= i < charts.len() ==> !contains_seq(#[trigger] charts[i].chart_name, search_upper))
            && (forall|i: int|
            0 <= i < charts.len() ==> !(is_procedure(#[trigger] charts[i]) && contains_seq(
                charts[i].chart_name,
                letters_upper,
            ))) ==> spec_pick_chart(charts, search_upper, letters_upper) is None,
        (forall|i: int|
            0 <= i < charts.len() ==> !contains_seq(#[trigger] charts[i].chart_name, search_upper))
            ==> match first_procedure_named(charts, letters_upper) {
            Some(i) => spec_pick_chart(charts, search_upper, letters_upper) == Some(charts[i].pdf_path)
                && is_procedure(charts[i]) && contains_seq(charts[i].chart_name, letters_upper),
            None => spec_pick_chart(charts, search_upper, letters_upper) is None,
        },
{
    lemma_first_named_is_least(charts, search_upper);
    lemma_first_procedure_named_is_least(charts, letters_upper);
    if let Some(i) = first_named(charts, search_upper) {
        assert(contains_seq(charts[i].chart_name, search_upper));
    }
    if let Some(i) = first_procedure_named(charts, letters_upper) {
        assert(is_procedure(charts[i]));
    } else {
        assert forall|i: int| 0 <= i < charts.len() implies !(is_procedure(#[trigger] charts[i])
            && contains_seq(charts[i].chart_name, letters_upper)) by {}
    }
}

} // verus!
