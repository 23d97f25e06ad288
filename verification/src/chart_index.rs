use vstd::prelude::*;

use indexmap::IndexMap;

use crate::entries::{
    entries_get, entries_insert, entry_keys, keys_distinct, lemma_entries_insert_get,
    lemma_entry_index_of_distinct, lemma_insert_keeps_keys_distinct,
};
use crate::faa_metafile::{Airport, ChartRecord, City, DigitalTpp, State};
use crate::host::{ChartsHost, charts_with_host, set_host_for_charts, spec_faa_cycle_url, with_host};
use crate::response_dtos::{ChartDto, ChartGroup, ChartView, chart_views, clone_charts};
use crate::text::{spec_upper, str_eq, to_uppercase};

verus! {

#[verifier::external_type_specification]
#[verifier::external_body]
#[verifier::reject_recursive_types(K)]
#[verifier::reject_recursive_types(V)]
#[verifier::reject_recursive_types(S)]
pub struct ExIndexMap<K, V, S>(IndexMap<K, V, S>);

/// What an index of charts by FAA identifier holds: its entries in their
/// order, each key by its characters with the models of its charts.
pub uninterp spec fn faa_index_entries(m: IndexMap<String, Vec<ChartDto>>) -> Seq<
    (Seq<char>, Seq<ChartView>),
>;

/// What an index from ICAO identifier to FAA identifier holds.
pub uninterp spec fn icao_index_contents(m: IndexMap<String, String>) -> Map<Seq<char>, Seq<char>>;

/// Calls `IndexMap::new` for the chart index. The contract claims that the
/// new map has no entries.
#[verifier::external_body]
fn faa_index_new() -> (r: IndexMap<String, Vec<ChartDto>>)
    ensures
        faa_index_entries(r) =~= Seq::empty(),
{
    IndexMap::new()
}

/// Calls `IndexMap::new` for the ICAO index. The contract claims that the
/// new map holds nothing.
#[verifier::external_body]
fn icao_index_new() -> (r: IndexMap<String, String>)
    ensures
        icao_index_contents(r) =~= Map::empty(),
{
    IndexMap::new()
}

/// Calls `IndexMap::get` on the chart index. The contract claims that the
/// charts of the entry whose key equals `key` come back, and `None` when no
/// key is equal to it.
#[verifier::external_body]
fn faa_index_get<'a>(m: &'a IndexMap<String, Vec<ChartDto>>, key: &str) -> (r: Option<
    &'a Vec<ChartDto>,
>)
    ensures
        match r {
            Some(v) => entries_get(faa_index_entries(*m), key@) == Some(chart_views(v@)),
            None => entries_get(faa_index_entries(*m), key@) is None,
        },
{
    m.get(key)
}

/// Calls `IndexMap::get_mut` on the chart index. The contract claims that the
/// entry whose key equals `key` gives its charts, whose final value becomes
/// the value of that entry, in its place, and nothing else changes; that
/// without such a key `None` comes back and the map is unchanged.
#[verifier::external_body]
fn faa_index_get_mut<'a>(m: &'a mut IndexMap<String, Vec<ChartDto>>, key: &str) -> (r: Option<
    &'a mut Vec<ChartDto>,
>)
    ensures
        match r {
            Some(v) => entries_get(faa_index_entries(*old(m)), key@) == Some(chart_views(v@))
                && faa_index_entries(*final(m)) == entries_insert(
                faa_index_entries(*old(m)),
                key@,
                chart_views(final(v)@),
            ),
            None => entries_get(faa_index_entries(*old(m)), key@) is None && *final(m) == *old(
                m,
            ),
        },
{
    m.get_mut(key)
}

/// Calls `IndexMap::insert` on the chart index. The contract claims what the
/// source documents: an entry with an equal key keeps its place and takes
/// `value`; otherwise the pair is added last.
#[verifier::external_body]
fn faa_index_insert(m: &mut IndexMap<String, Vec<ChartDto>>, key: String, value: Vec<ChartDto>)
    ensures
        faa_index_entries(*final(m)) == entries_insert(
            faa_index_entries(*old(m)),
            key@,
            chart_views(value@),
        ),
{
    m.insert(key, value);
}

/// Calls `IndexMap::get` on the ICAO index. The contract claims that the
/// identifier stored under a key equal to `key` comes back, and `None` when
/// no key is equal to it.
#[verifier::external_body]
fn icao_index_get<'a>(m: &'a IndexMap<String, String>, key: &str) -> (r: Option<&'a String>)
    ensures
        match r {
            Some(v) => icao_index_contents(*m).contains_key(key@) && v@ == icao_index_contents(
                *m,
            )[key@],
            None => !icao_index_contents(*m).contains_key(key@),
        },
{
    m.get(key)
}

/// Calls `IndexMap::insert` on the ICAO index. The contract claims that the
/// key afterwards holds `value` and every other key is unchanged.
#[verifier::external_body]
fn icao_index_insert(m: &mut IndexMap<String, String>, key: String, value: String)
    ensures
        icao_index_contents(*final(m)) == icao_index_contents(*old(m)).insert(key@, value@),
{
    m.insert(key, value);
}

/// The charts of a publication cycle, indexed by FAA airport identifier, and
/// the FAA identifier of each airport by its ICAO identifier.
pub struct ChartsHashMaps {
    pub faa: IndexMap<String, Vec<ChartDto>>,
    pub icao: IndexMap<String, String>,
}

impl ChartsHashMaps {
    /// The entries of the index by FAA identifier, in their order.
    pub open spec fn faa_view(&self) -> Seq<(Seq<char>, Seq<ChartView>)> {
        faa_index_entries(self.faa)
    }

    /// The FAA identifier by ICAO identifier.
    pub open spec fn icao_view(&self) -> Map<Seq<char>, Seq<char>> {
        icao_index_contents(self.icao)
    }
}

/// The group of a chart by its chart code: `IAP` approaches; `ODP`, `DP`
/// and `DAU` departures; `STAR` arrivals; `APD` airport diagrams; anything
/// else (`MIN`, `LAH`, `HOT`, ...) general.
pub open spec fn spec_chart_group(code: Seq<char>) -> ChartGroup {
    if code == "IAP"@ {
        ChartGroup::Approaches
    } else if code == "ODP"@ || code == "DP"@ || code == "DAU"@ {
        ChartGroup::Departures
    } else if code == "STAR"@ {
        ChartGroup::Arrivals
    } else if code == "APD"@ {
        ChartGroup::Apd
    } else {
        ChartGroup::General
    }
}

/// A record is indexed unless it is marked deleted (user action `D`).
pub open spec fn is_kept(r: ChartRecord) -> bool {
    r.useraction@ != "D"@
}

/// The chart that a record of an airport of a city of a state gives, with
/// its PDF path under the publication cycle.
pub open spec fn chart_of(
    st: State,
    ci: City,
    ap: Airport,
    rec: ChartRecord,
    cycle: Seq<char>,
) -> ChartView {
    ChartView {
        state: st.id@,
        state_full: st.full_name@,
        city: ci.id@,
        volume: ci.volume@,
        airport_name: ap.id@,
        military: ap.military@,
        faa_ident: ap.apt_ident@,
        icao_ident: ap.icao_ident@,
        chart_seq: rec.chartseq@,
        chart_code: rec.chart_code@,
        chart_name: rec.chart_name@,
        pdf_name: rec.pdf_name@,
        pdf_path: cycle + "/"@ + rec.pdf_name@,
        chart_group: spec_chart_group(rec.chart_code@),
    }
}

/// The charts of the kept records, in order.
pub open spec fn record_charts(
    st: State,
    ci: City,
    ap: Airport,
    recs: Seq<ChartRecord>,
    cycle: Seq<char>,
) -> Seq<ChartView>
    decreases recs.len(),
{
    if recs.len() == 0 {
        Seq::empty()
    } else {
        let rest = record_charts(st, ci, ap, recs.drop_last(), cycle);
        if is_kept(recs.last()) {
            rest.push(chart_of(st, ci, ap, recs.last(), cycle))
        } else {
            rest
        }
    }
}

/// The charts of the airports, in order.
pub open spec fn airport_charts(st: State, ci: City, aps: Seq<Airport>, cycle: Seq<char>) -> Seq<
    ChartView,
>
    decreases aps.len(),
{
    if aps.len() == 0 {
        Seq::empty()
    } else {
        airport_charts(st, ci, aps.drop_last(), cycle) + record_charts(
            st,
            ci,
            aps.last(),
            aps.last().chart_records@,
            cycle,
        )
    }
}

/// The charts of the cities, in order.
pub open spec fn city_charts(st: State, cis: Seq<City>, cycle: Seq<char>) -> Seq<ChartView>
    decreases cis.len(),
{
    if cis.len() == 0 {
        Seq::empty()
    } else {
        city_charts(st, cis.drop_last(), cycle) + airport_charts(
            st,
            cis.last(),
            cis.last().airports@,
            cycle,
        )
    }
}

/// The charts of the states, in order.
pub open spec fn state_charts(sts: Seq<State>, cycle: Seq<char>) -> Seq<ChartView>
    decreases sts.len(),
{
    if sts.len() == 0 {
        Seq::empty()
    } else {
        state_charts(sts.drop_last(), cycle) + city_charts(sts.last(), sts.last().cities@, cycle)
    }
}

/// Every chart of the metafile that is not marked deleted, in the metafile's
/// order.
pub open spec fn metafile_charts(dtpp: DigitalTpp, cycle: Seq<char>) -> Seq<ChartView> {
    state_charts(dtpp.states@, cycle)
}

/// The entries by FAA identifier: one per identifier, in the order of each
/// identifier's first chart, each with its charts in their order.
pub open spec fn faa_index_of(charts: Seq<ChartView>) -> Seq<(Seq<char>, Seq<ChartView>)>
    decreases charts.len(),
{
    if charts.len() == 0 {
        Seq::empty()
    } else {
        let e = faa_index_of(charts.drop_last());
        let c = charts.last();
        match entries_get(e, c.faa_ident) {
            Some(cs) => entries_insert(e, c.faa_ident, cs.push(c)),
            None => entries_insert(e, c.faa_ident, seq![c]),
        }
    }
}

/// The FAA identifier by ICAO identifier, the last chart of an ICAO
/// identifier deciding; charts without an ICAO identifier add nothing.
pub open spec fn icao_index_of(charts: Seq<ChartView>) -> Map<Seq<char>, Seq<char>>
    decreases charts.len(),
{
    if charts.len() == 0 {
        Map::empty()
    } else {
        let m = icao_index_of(charts.drop_last());
        let c = charts.last();
        if c.icao_ident.len() != 0 {
            m.insert(c.icao_ident, c.faa_ident)
        } else {
            m
        }
    }
}

/// The group of a chart by its chart code.
pub fn chart_group_for_code(code: &str) -> (g: ChartGroup)
    ensures
        g == spec_chart_group(code@),
{
    if str_eq(code, "IAP") {
        ChartGroup::Approaches
    } else if str_eq(code, "ODP") || str_eq(code, "DP") || str_eq(code, "DAU") {
        ChartGroup::Departures
    } else if str_eq(code, "STAR") {
        ChartGroup::Arrivals
    } else if str_eq(code, "APD") {
        ChartGroup::Apd
    } else {
        ChartGroup::General
    }
}

/// `a`, `/` and `b`, as a new string.
fn slash_join(a: &str, b: &str) -> (r: String)
    ensures
        r@ == a@ + "/"@ + b@,
{
    a.to_owned().concat("/").concat(b)
}

/// The chart that a record of an airport of a city of a state gives.
pub fn chart_from_record(
    st: &State,
    ci: &City,
    ap: &Airport,
    rec: &ChartRecord,
    current_cycle: &str,
) -> (c: ChartDto)
    ensures
        c@ == chart_of(*st, *ci, *ap, *rec, current_cycle@),
{
    let c = ChartDto {
        state: st.id.clone(),
        state_full: st.full_name.clone(),
        city: ci.id.clone(),
        volume: ci.volume.clone(),
        airport_name: ap.id.clone(),
        military: ap.military.clone(),
        faa_ident: ap.apt_ident.clone(),
        icao_ident: ap.icao_ident.clone(),
        chart_seq: rec.chartseq.clone(),
        chart_code: rec.chart_code.clone(),
        chart_name: rec.chart_name.clone(),
        pdf_name: rec.pdf_name.clone(),
        pdf_path: slash_join(current_cycle, rec.pdf_name.as_str()),
        chart_group: chart_group_for_code(rec.chart_code.as_str()),
    };
    assert(c@ =~= chart_of(*st, *ci, *ap, *rec, current_cycle@));
    c
}

/// Adds one chart to both indexes: under its FAA identifier, and its ICAO
/// identifier, when it has one, to its FAA identifier.
fn index_chart(
    faa: &mut IndexMap<String, Vec<ChartDto>>,
    icao: &mut IndexMap<String, String>,
    chart: ChartDto,
    Ghost(done): Ghost<Seq<ChartView>>,
)
    requires
        faa_index_entries(*old(faa)) == faa_index_of(done),
        icao_index_contents(*old(icao)) == icao_index_of(done),
    ensures
        faa_index_entries(*final(faa)) == faa_index_of(done.push(chart@)),
        icao_index_contents(*final(icao)) == icao_index_of(done.push(chart@)),
{
    let ghost c = chart@;
    assert(done.push(c).drop_last() =~= done);
    if chart.icao_ident.as_str().unicode_len() != 0 {
        icao_index_insert(icao, chart.icao_ident.clone(), chart.faa_ident.clone());
    }
    let key = chart.faa_ident.clone();
    match faa_index_get_mut(faa, key.as_str()) {
        Some(charts) => {
            let ghost before = chart_views(charts@);
            charts.push(chart);
            assert(chart_views(charts@) =~= before.push(c));
        },
        None => {
            let mut v: Vec<ChartDto> = Vec::new();
            v.push(chart);
            assert(chart_views(v@) =~= seq![c]);
            faa_index_insert(faa, key, v);
        },
    }
}

/// The indexes of every chart of the metafile that is not marked deleted,
/// with PDF paths under the publication cycle.
pub fn charts_maps_from_metafile(dtpp: &DigitalTpp, current_cycle: &str) -> (maps: ChartsHashMaps)
    ensures
        maps.faa_view() == faa_index_of(metafile_charts(*dtpp, current_cycle@)),
        maps.icao_view() == icao_index_of(metafile_charts(*dtpp, current_cycle@)),
{
    let mut faa = faa_index_new();
    let mut icao = icao_index_new();
    let ghost cycle = current_cycle@;
    let ghost states = dtpp.states@;
    let ghost mut done: Seq<ChartView> = Seq::empty();
    let mut i: usize = 0;
    while i < dtpp.states.len()
        invariant
            states == dtpp.states@,
            cycle == current_cycle@,
            i <= states.len(),
            done == state_charts(states.take(i as int), cycle),
            faa_index_entries(faa) == faa_index_of(done),
            icao_index_contents(icao) == icao_index_of(done),
        decreases states.len() - i,
    {
        let st = &dtpp.states[i];
        let ghost cities = st.cities@;
        let ghost base_i = done;
        let mut j: usize = 0;
        while j < st.cities.len()
            invariant
                cities == st.cities@,
                cycle == current_cycle@,
                j <= cities.len(),
                done == base_i + city_charts(*st, cities.take(j as int), cycle),
                faa_index_entries(faa) == faa_index_of(done),
                icao_index_contents(icao) == icao_index_of(done),
            decreases cities.len() - j,
        {
            let ci = &st.cities[j];
            let ghost airports = ci.airports@;
            let ghost base_j = done;
            let mut k: usize = 0;
            while k < ci.airports.len()
                invariant
                    airports == ci.airports@,
                    cycle == current_cycle@,
                    k <= airports.len(),
                    done == base_j + airport_charts(*st, *ci, airports.take(k as int), cycle),
                    faa_index_entries(faa) == faa_index_of(done),
                    icao_index_contents(icao) == icao_index_of(done),
                decreases airports.len() - k,
            {
                let ap = &ci.airports[k];
                let ghost recs = ap.chart_records@;
                let ghost base_k = done;
                let mut l: usize = 0;
                while l < ap.chart_records.len()
                    invariant
                        recs == ap.chart_records@,
                        cycle == current_cycle@,
                        l <= recs.len(),
                        done == base_k + record_charts(
                            *st,
                            *ci,
                            *ap,
                            recs.take(l as int),
                            cycle,
                        ),
                        faa_index_entries(faa) == faa_index_of(done),
                        icao_index_contents(icao) == icao_index_of(done),
                    decreases recs.len() - l,
                {
                    let rec = &ap.chart_records[l];
                    assert(recs.take(l + 1).drop_last() =~= recs.take(l as int));
                    if !str_eq(rec.useraction.as_str(), "D") {
                        let chart = chart_from_record(st, ci, ap, rec, current_cycle);
                        let ghost c = chart@;
                        index_chart(&mut faa, &mut icao, chart, Ghost(done));
                        proof {
                            assert(base_k + record_charts(*st, *ci, *ap, recs.take(l + 1), cycle)
                                =~= (base_k + record_charts(
                                *st,
                                *ci,
                                *ap,
                                recs.take(l as int),
                                cycle,
                            )).push(c));
                            done = done.push(c);
                        }
                    }
                    l = l + 1;
                }
                proof {
                    assert(recs.take(recs.len() as int) =~= recs);
                    assert(airports.take(k + 1).drop_last() =~= airports.take(k as int));
                    assert(base_j + airport_charts(*st, *ci, airports.take(k + 1), cycle) =~= (
                    base_j + airport_charts(*st, *ci, airports.take(k as int), cycle))
                        + record_charts(*st, *ci, *ap, recs, cycle));
                }
                k = k + 1;
            }
            proof {
                assert(airports.take(airports.len() as int) =~= airports);
                assert(cities.take(j + 1).drop_last() =~= cities.take(j as int));
                assert(base_i + city_charts(*st, cities.take(j + 1), cycle) =~= (base_i
                    + city_charts(*st, cities.take(j as int), cycle)) + airport_charts(
                    *st,
                    *ci,
                    airports,
                    cycle,
                ));
            }
            j = j + 1;
        }
        proof {
            assert(cities.take(cities.len() as int) =~= cities);
            assert(states.take(i + 1).drop_last() =~= states.take(i as int));
            assert(state_charts(states.take(i + 1), cycle) =~= state_charts(
                states.take(i as int),
                cycle,
            ) + city_charts(*st, cities, cycle));
        }
        i = i + 1;
    }
    proof {
        assert(states.take(states.len() as int) =~= states);
    }
    ChartsHashMaps { faa, icao }
}

/// The models of an optional list of charts.
pub open spec fn opt_chart_views(r: Option<Vec<ChartDto>>) -> Option<Seq<ChartView>> {
    match r {
        Some(v) => Some(chart_views(v@)),
        None => None,
    }
}


/// The charts of the FAA identifier that an uppercased identifier stands for
/// as an ICAO identifier, each with its PDF path under the host.
pub open spec fn spec_lookup_icao(
    faa: Seq<(Seq<char>, Seq<ChartView>)>,
    icao: Map<Seq<char>, Seq<char>>,
    apt_upper: Seq<char>,
    host: ChartsHost,
) -> Option<Seq<ChartView>> {
    if icao.contains_key(apt_upper) {
        match entries_get(faa, icao[apt_upper]) {
            Some(cs) => Some(charts_with_host(cs, host)),
            None => None,
        }
    } else {
        None
    }
}

/// The charts answered for an airport identifier, given the identifier
/// uppercased: the charts under the identifier as an FAA identifier; else
/// the charts of the FAA identifier that the uppercased identifier stands for
/// as an ICAO identifier; each with its PDF path under the host.
pub open spec fn spec_lookup(
    faa: Seq<(Seq<char>, Seq<ChartView>)>,
    icao: Map<Seq<char>, Seq<char>>,
    apt: Seq<char>,
    apt_upper: Seq<char>,
    host: ChartsHost,
) -> Option<Seq<ChartView>> {
    match entries_get(faa, apt) {
        Some(cs) => Some(charts_with_host(cs, host)),
        None => spec_lookup_icao(faa, icao, apt_upper, host),
    }
}

impl ChartsHashMaps {
    /// The charts answered for an airport identifier.
    pub open spec fn spec_lookup_charts(&self, apt: Seq<char>, host: ChartsHost) -> Option<
        Seq<ChartView>,
    > {
        spec_lookup(self.faa_view(), self.icao_view(), apt, spec_upper(apt), host)
    }
}

/// The charts of the FAA identifier that an ICAO identifier stands for.
fn lookup_by_icao(apt_upper: &str, host: ChartsHost, maps: &ChartsHashMaps) -> (r: Option<
    Vec<ChartDto>,
>)
    ensures
        opt_chart_views(r) == spec_lookup_icao(maps.faa_view(), maps.icao_view(), apt_upper@, host),
{
    match icao_index_get(&maps.icao, apt_upper) {
        Some(faa_id) => match faa_index_get(&maps.faa, faa_id.as_str()) {
            Some(charts) => Some(set_host_for_charts(clone_charts(charts.as_slice()), host)),
            None => None,
        },
        None => None,
    }
}

/// The charts answered for an airport identifier whose uppercase form is
/// `apt_upper`.
pub fn lookup_charts_with_upper(
    apt_id: &str,
    apt_upper: &str,
    host: ChartsHost,
    maps: &ChartsHashMaps,
) -> (r: Option<Vec<ChartDto>>)
    ensures
        opt_chart_views(r) == spec_lookup(
            maps.faa_view(),
            maps.icao_view(),
            apt_id@,
            apt_upper@,
            host,
        ),
{
    match faa_index_get(&maps.faa, apt_id) {
        Some(charts) => Some(set_host_for_charts(clone_charts(charts.as_slice()), host)),
        None => lookup_by_icao(apt_upper, host, maps),
    }
}

/// The charts answered for an airport identifier: those under it as an FAA
/// identifier, else those of the FAA identifier that its uppercase form
/// stands for as an ICAO identifier, else none; each with its PDF path under
/// the host.
pub fn lookup_charts(apt_id: &str, host: ChartsHost, maps: &ChartsHashMaps) -> (r: Option<
    Vec<ChartDto>,
>)
    ensures
        opt_chart_views(r) == maps.spec_lookup_charts(apt_id@, host),
{
    match faa_index_get(&maps.faa, apt_id) {
        Some(charts) => Some(set_host_for_charts(clone_charts(charts.as_slice()), host)),
        None => {
            let upper = to_uppercase(apt_id);
            lookup_by_icao(upper.as_str(), host, maps)
        },
    }
}

/// The charts whose FAA identifier is `k`, in order.
pub open spec fn charts_of_ident(charts: Seq<ChartView>, k: Seq<char>) -> Seq<ChartView>
    decreases charts.len(),
{
    if charts.len() == 0 {
        Seq::empty()
    } else {
        let rest = charts_of_ident(charts.drop_last(), k);
        if charts.last().faa_ident == k {
            rest.push(charts.last())
        } else {
            rest
        }
    }
}

/// The FAA identifiers of the charts, each once, in the order of its first
/// chart.
pub open spec fn first_idents(charts: Seq<ChartView>) -> Seq<Seq<char>>
    decreases charts.len(),
{
    if charts.len() == 0 {
        Seq::empty()
    } else {
        let rest = first_idents(charts.drop_last());
        if rest.contains(charts.last().faa_ident) {
            rest
        } else {
            rest.push(charts.last().faa_ident)
        }
    }
}

/// The index by FAA identifier has one entry per identifier of the charts,
/// in the order in which each identifier first occurs.
pub proof fn lemma_faa_index_keys(charts: Seq<ChartView>)
    ensures
        keys_distinct(faa_index_of(charts)),
        entry_keys(faa_index_of(charts)) == first_idents(charts),
    decreases charts.len(),
{
    if charts.len() > 0 {
        let prev = charts.drop_last();
        lemma_faa_index_keys(prev);
        let e = faa_index_of(prev);
        let c = charts.last();
        match entries_get(e, c.faa_ident) {
            Some(cs) => lemma_insert_keeps_keys_distinct(e, c.faa_ident, cs.push(c)),
            None => lemma_insert_keeps_keys_distinct(e, c.faa_ident, seq![c]),
        }
    } else {
        assert(entry_keys(faa_index_of(charts)) =~= Seq::<Seq<char>>::empty());
    }
}

/// The index by FAA identifier has an entry exactly for the identifiers of
/// the charts, and holds under each exactly the charts with that identifier,
/// in their order: no chart is lost, duplicated or filed under another key.
pub proof fn lemma_faa_index_is_partition(charts: Seq<ChartView>, k: Seq<char>)
    ensures
        entries_get(faa_index_of(charts), k) == if charts_of_ident(charts, k).len() > 0 {
            Some(charts_of_ident(charts, k))
        } else {
            None
        },
    decreases charts.len(),
{
    if charts.len() > 0 {
        let prev = charts.drop_last();
        lemma_faa_index_is_partition(prev, k);
        let e = faa_index_of(prev);
        let c = charts.last();
        lemma_faa_index_is_partition(prev, c.faa_ident);
        let v = match entries_get(e, c.faa_ident) {
            Some(cs) => cs.push(c),
            None => seq![c],
        };
        lemma_entries_insert_get(e, c.faa_ident, v, k);
        if charts_of_ident(prev, c.faa_ident).len() == 0 {
            assert(charts_of_ident(prev, c.faa_ident).push(c) =~= seq![c]);
        }
    }
}

/// The charts of an identifier are charts of the list with that identifier.
pub proof fn lemma_charts_of_ident_members(charts: Seq<ChartView>, k: Seq<char>, j: int)
    requires
        0 <= j < charts_of_ident(charts, k).len(),
    ensures
        charts_of_ident(charts, k)[j].faa_ident == k,
        charts.contains(charts_of_ident(charts, k)[j]),
    decreases charts.len(),
{
    let prev = charts.drop_last();
    if j < charts_of_ident(prev, k).len() {
        lemma_charts_of_ident_members(prev, k, j);
        let x = choose|m: int| 0 <= m < prev.len() && prev[m] == charts_of_ident(prev, k)[j];
        assert(charts[x] == prev[x]);
    } else {
        assert(charts[charts.len() - 1] == charts.last());
    }
}

/// A chart of the list with identifier `k` is among the charts of `k`.
proof fn lemma_charts_of_ident_has(charts: Seq<ChartView>, k: Seq<char>, i: int)
    requires
        0 <= i < charts.len(),
        charts[i].faa_ident == k,
    ensures
        charts_of_ident(charts, k).contains(charts[i]),
    decreases charts.len(),
{
    let prev = charts.drop_last();
    let r = charts_of_ident(prev, k);
    if i < charts.len() - 1 {
        assert(prev[i] == charts[i]);
        lemma_charts_of_ident_has(prev, k, i);
        let x = choose|m: int| 0 <= m < r.len() && r[m] == charts[i];
        if charts.last().faa_ident == k {
            assert(r.push(charts.last())[x] == charts[i]);
        }
    } else {
        assert(r.push(charts.last())[r.len() as int] == charts[i]);
    }
}

/// Every ICAO identifier of the ICAO index is a non-empty ICAO identifier of
/// a chart whose FAA identifier it leads to.
proof fn lemma_icao_source(charts: Seq<ChartView>, k: Seq<char>)
    requires
        icao_index_of(charts).contains_key(k),
    ensures
        k.len() != 0,
        exists|i: int|
            0 <= i < charts.len() && #[trigger] charts[i].icao_ident == k && charts[i].faa_ident
                == icao_index_of(charts)[k],
    decreases charts.len(),
{
    let prev = charts.drop_last();
    let c = charts.last();
    if c.icao_ident.len() != 0 && c.icao_ident == k {
        assert(charts[charts.len() - 1].icao_ident == k);
    } else {
        lemma_icao_source(prev, k);
        let i = choose|i: int|
            0 <= i < prev.len() && #[trigger] prev[i].icao_ident == k && prev[i].faa_ident
                == icao_index_of(prev)[k];
        assert(charts[i] == prev[i]);
    }
}

/// Every ICAO identifier of the ICAO index leads to an entry of the index by
/// FAA identifier.
pub proof fn lemma_icao_targets_indexed(charts: Seq<ChartView>, k: Seq<char>)
    ensures
        icao_index_of(charts).contains_key(k) ==> entries_get(
            faa_index_of(charts),
            icao_index_of(charts)[k],
        ) is Some,
{
    if icao_index_of(charts).contains_key(k) {
        lemma_icao_source(charts, k);
        let f = icao_index_of(charts)[k];
        let i = choose|i: int|
            0 <= i < charts.len() && #[trigger] charts[i].icao_ident == k && charts[i].faa_ident
                == f;
        lemma_charts_of_ident_has(charts, f, i);
        lemma_faa_index_is_partition(charts, f);
    }
}

/// On indexes built from charts, an airport identifier has charts exactly
/// when it is an FAA identifier of the index or its uppercase form is an ICAO
/// identifier of the index.
pub proof fn lemma_lookup_finds_indexed_airports(
    charts: Seq<ChartView>,
    apt: Seq<char>,
    apt_upper: Seq<char>,
    host: ChartsHost,
)
    ensures
        spec_lookup(faa_index_of(charts), icao_index_of(charts), apt, apt_upper, host) is Some
            <==> (entries_get(faa_index_of(charts), apt) is Some || icao_index_of(
            charts,
        ).contains_key(apt_upper)),
{
    lemma_icao_targets_indexed(charts, apt_upper);
}

/// Every chart's PDF path is its PDF name under the publication cycle.
pub open spec fn links_under_cycle(charts: Seq<ChartView>, cycle: Seq<char>) -> bool {
    forall|i: int|
        0 <= i < charts.len() ==> #[trigger] charts[i].pdf_path == cycle + "/"@ + charts[i].pdf_name
}

proof fn lemma_links_concat(a: Seq<ChartView>, b: Seq<ChartView>, cycle: Seq<char>)
    requires
        links_under_cycle(a, cycle),
        links_under_cycle(b, cycle),
    ensures
        links_under_cycle(a + b, cycle),
{
    assert forall|i: int| 0 <= i < (a + b).len() implies #[trigger] (a + b)[i].pdf_path == cycle
        + "/"@ + (a + b)[i].pdf_name by {
        if i < a.len() {
            assert((a + b)[i] == a[i]);
        } else {
            assert((a + b)[i] == b[i - a.len()]);
        }
    }
}

proof fn lemma_record_links(st: State, ci: City, ap: Airport, recs: Seq<ChartRecord>, cycle: Seq<char>)
    ensures
        links_under_cycle(record_charts(st, ci, ap, recs, cycle), cycle),
    decreases recs.len(),
{
    if recs.len() > 0 {
        lemma_record_links(st, ci, ap, recs.drop_last(), cycle);
        let rest = record_charts(st, ci, ap, recs.drop_last(), cycle);
        if is_kept(recs.last()) {
            lemma_links_concat(rest, seq![chart_of(st, ci, ap, recs.last(), cycle)], cycle);
            assert(rest + seq![chart_of(st, ci, ap, recs.last(), cycle)] =~= rest.push(
                chart_of(st, ci, ap, recs.last(), cycle),
            ));
        }
    }
}

proof fn lemma_airport_links(st: State, ci: City, aps: Seq<Airport>, cycle: Seq<char>)
    ensures
        links_under_cycle(airport_charts(st, ci, aps, cycle), cycle),
    decreases aps.len(),
{
    if aps.len() > 0 {
        lemma_airport_links(st, ci, aps.drop_last(), cycle);
        lemma_record_links(st, ci, aps.last(), aps.last().chart_records@, cycle);
        lemma_links_concat(
            airport_charts(st, ci, aps.drop_last(), cycle),
            record_charts(st, ci, aps.last(), aps.last().chart_records@, cycle),
            cycle,
        );
    }
}

proof fn lemma_city_links(st: State, cis: Seq<City>, cycle: Seq<char>)
    ensures
        links_under_cycle(city_charts(st, cis, cycle), cycle),
    decreases cis.len(),
{
    if cis.len() > 0 {
        lemma_city_links(st, cis.drop_last(), cycle);
        lemma_airport_links(st, cis.last(), cis.last().airports@, cycle);
        lemma_links_concat(
            city_charts(st, cis.drop_last(), cycle),
            airport_charts(st, cis.last(), cis.last().airports@, cycle),
            cycle,
        );
    }
}

proof fn lemma_state_links(sts: Seq<State>, cycle: Seq<char>)
    ensures
        links_under_cycle(state_charts(sts, cycle), cycle),
    decreases sts.len(),
{
    if sts.len() > 0 {
        lemma_state_links(sts.drop_last(), cycle);
        lemma_city_links(sts.last(), sts.last().cities@, cycle);
        lemma_links_concat(
            state_charts(sts.drop_last(), cycle),
            city_charts(sts.last(), sts.last().cities@, cycle),
            cycle,
        );
    }
}

/// An entry of the index by FAA identifier of charts linked under a cycle
/// has charts, each carrying the entry's key and linked under the cycle.
proof fn lemma_index_entry(s: Seq<ChartView>, cycle: Seq<char>, i: int)
    requires
        links_under_cycle(s, cycle),
        0 <= i < faa_index_of(s).len(),
    ensures
        faa_index_of(s)[i].1.len() > 0,
        forall|j: int|
            0 <= j < faa_index_of(s)[i].1.len() ==> #[trigger] faa_index_of(s)[i].1[j].faa_ident
                == faa_index_of(s)[i].0 && faa_index_of(s)[i].1[j].pdf_path == cycle + "/"@
                + faa_index_of(s)[i].1[j].pdf_name,
{
    let e = faa_index_of(s);
    let k = e[i].0;
    lemma_faa_index_keys(s);
    lemma_entry_index_of_distinct(e, i);
    lemma_faa_index_is_partition(s, k);
    assert(charts_of_ident(s, k).len() > 0);
    assert(e[i].1 == charts_of_ident(s, k));
    assert forall|j: int| 0 <= j < e[i].1.len() implies #[trigger] e[i].1[j].faa_ident == k
        && e[i].1[j].pdf_path == cycle + "/"@ + e[i].1[j].pdf_name by {
        lemma_charts_of_ident_members(s, k, j);
        let x = choose|x: int| 0 <= x < s.len() && s[x] == e[i].1[j];
        assert(s[x].pdf_path == cycle + "/"@ + s[x].pdf_name);
    }
}

/// Some chart of the list has the ICAO identifier `k`.
pub open spec fn has_icao_chart(charts: Seq<ChartView>, k: Seq<char>) -> bool {
    exists|j: int| 0 <= j < charts.len() && #[trigger] charts[j].icao_ident == k
}

/// The indexes built from a metafile: every entry of the index by FAA
/// identifier has charts, each carrying that identifier and linked as its PDF
/// name under the publication cycle; every ICAO identifier is non-empty and
/// leads to an entry holding a chart with that ICAO identifier.
pub proof fn lemma_metafile_index_invariants(dtpp: DigitalTpp, cycle: Seq<char>)
    ensures
        forall|i: int|
            0 <= i < faa_index_of(metafile_charts(dtpp, cycle)).len() ==> {
                let e = #[trigger] faa_index_of(metafile_charts(dtpp, cycle))[i];
                &&& e.1.len() > 0
                &&& forall|j: int|
                    0 <= j < e.1.len() ==> #[trigger] e.1[j].faa_ident == e.0 && e.1[j].pdf_path
                        == cycle + "/"@ + e.1[j].pdf_name
            },
        forall|k: Seq<char>|
            #[trigger] icao_index_of(metafile_charts(dtpp, cycle)).contains_key(k) ==> {
                &&& k.len() != 0
                &&& entries_get(
                    faa_index_of(metafile_charts(dtpp, cycle)),
                    icao_index_of(metafile_charts(dtpp, cycle))[k],
                ) matches Some(cs)
                &&& has_icao_chart(cs, k)
            },
{
    let s = metafile_charts(dtpp, cycle);
    let e = faa_index_of(s);
    let m = icao_index_of(s);
    lemma_state_links(dtpp.states@, cycle);
    lemma_faa_index_keys(s);
    assert forall|i: int| 0 <= i < e.len() implies {
        let x = #[trigger] e[i];
        &&& x.1.len() > 0
        &&& forall|j: int|
            0 <= j < x.1.len() ==> #[trigger] x.1[j].faa_ident == x.0 && x.1[j].pdf_path == cycle
                + "/"@ + x.1[j].pdf_name
    } by {
        lemma_index_entry(s, cycle, i);
    }
    assert forall|k: Seq<char>| #[trigger] m.contains_key(k) implies {
        &&& k.len() != 0
        &&& entries_get(e, m[k]) matches Some(cs)
        &&& has_icao_chart(cs, k)
    } by {
        lemma_icao_source(s, k);
        let i = choose|i: int|
            0 <= i < s.len() && #[trigger] s[i].icao_ident == k && s[i].faa_ident == m[k];
        lemma_charts_of_ident_has(s, m[k], i);
        lemma_faa_index_is_partition(s, m[k]);
        let cs = charts_of_ident(s, m[k]);
        let j = choose|j: int| 0 <= j < cs.len() && cs[j] == s[i];
        assert(cs.len() > 0);
        assert(entries_get(e, m[k]) == Some(cs));
        assert(cs[j].icao_ident == k);
        assert(has_icao_chart(cs, k));
    }
}

/// Under the FAA host, the link of a chart built from a record is the
/// record's PDF name under the directory of the publication cycle.
pub proof fn lemma_faa_link_under_cycle_url(
    st: State,
    ci: City,
    ap: Airport,
    rec: ChartRecord,
    cycle: Seq<char>,
)
    ensures
        with_host(chart_of(st, ci, ap, rec, cycle), ChartsHost::Faa).pdf_path == spec_faa_cycle_url(
            cycle,
        ) + "/"@ + rec.pdf_name@,
{
    assert(with_host(chart_of(st, ci, ap, rec, cycle), ChartsHost::Faa).pdf_path
        =~= spec_faa_cycle_url(cycle) + "/"@ + rec.pdf_name@);
}

/// `x` is the chart of record `rec` of airport `ap` of city `ci` of state
/// `st`, field by field, with its PDF path under the cycle.
pub open spec fn carries_record(
    x: ChartView,
    st: State,
    ci: City,
    ap: Airport,
    rec: ChartRecord,
    cycle: Seq<char>,
) -> bool {
    &&& x.state == st.id@
    &&& x.state_full == st.full_name@
    &&& x.city == ci.id@
    &&& x.volume == ci.volume@
    &&& x.airport_name == ap.id@
    &&& x.military == ap.military@
    &&& x.faa_ident == ap.apt_ident@
    &&& x.icao_ident == ap.icao_ident@
    &&& x.chart_seq == rec.chartseq@
    &&& x.chart_code == rec.chart_code@
    &&& x.chart_name == rec.chart_name@
    &&& x.pdf_name == rec.pdf_name@
    &&& x.pdf_path == cycle + "/"@ + rec.pdf_name@
    &&& x.chart_group == spec_chart_group(rec.chart_code@)
}

/// Positions `a`, `b`, `c`, `d` name a record of the metafile: record `d`
/// of airport `c` of city `b` of state `a`.
pub open spec fn record_at(dtpp: DigitalTpp, a: int, b: int, c: int, d: int) -> bool {
    &&& 0 <= a < dtpp.states@.len()
    &&& 0 <= b < dtpp.states@[a].cities@.len()
    &&& 0 <= c < dtpp.states@[a].cities@[b].airports@.len()
    &&& 0 <= d < dtpp.states@[a].cities@[b].airports@[c].chart_records@.len()
}

/// Record `d` of airport `c` of city `b` of state `a` is not marked deleted
/// (its user action is not exactly `D`) and `x` is its chart.
pub open spec fn kept_source(
    dtpp: DigitalTpp,
    cycle: Seq<char>,
    a: int,
    b: int,
    c: int,
    d: int,
    x: ChartView,
) -> bool {
    let st = dtpp.states@[a];
    let ci = st.cities@[b];
    let ap = ci.airports@[c];
    let rec = ap.chart_records@[d];
    &&& record_at(dtpp, a, b, c, d)
    &&& rec.useraction@ != "D"@
    &&& carries_record(x, st, ci, ap, rec, cycle)
}

/// Some chart of the list is the chart of the given record.
pub open spec fn has_chart_of_record(
    charts: Seq<ChartView>,
    st: State,
    ci: City,
    ap: Airport,
    rec: ChartRecord,
    cycle: Seq<char>,
) -> bool {
    exists|j: int| 0 <= j < charts.len() && carries_record(#[trigger] charts[j], st, ci, ap, rec, cycle)
}

proof fn lemma_record_in(st: State, ci: City, ap: Airport, recs: Seq<ChartRecord>, cycle: Seq<char>, d: int)
    requires
        0 <= d < recs.len(),
        is_kept(recs[d]),
    ensures
        record_charts(st, ci, ap, recs, cycle).contains(chart_of(st, ci, ap, recs[d], cycle)),
    decreases recs.len(),
{
    let prev = recs.drop_last();
    let r = record_charts(st, ci, ap, prev, cycle);
    let x = chart_of(st, ci, ap, recs[d], cycle);
    if d == recs.len() - 1 {
        assert(r.push(x)[r.len() as int] == x);
    } else {
        assert(prev[d] == recs[d]);
        lemma_record_in(st, ci, ap, prev, cycle, d);
        let q = choose|q: int| 0 <= q < r.len() && r[q] == x;
        if is_kept(recs.last()) {
            assert(r.push(chart_of(st, ci, ap, recs.last(), cycle))[q] == x);
        }
    }
}

proof fn lemma_in_concat<T>(a: Seq<T>, b: Seq<T>, x: T)
    requires
        a.contains(x) || b.contains(x),
    ensures
        (a + b).contains(x),
{
    if a.contains(x) {
        let q = choose|q: int| 0 <= q < a.len() && a[q] == x;
        assert((a + b)[q] == x);
    } else {
        let q = choose|q: int| 0 <= q < b.len() && b[q] == x;
        assert((a + b)[a.len() + q] == x);
    }
}

proof fn lemma_concat_parts<T>(a: Seq<T>, b: Seq<T>, x: T)
    requires
        (a + b).contains(x),
    ensures
        a.contains(x) || b.contains(x),
{
    let q = choose|q: int| 0 <= q < (a + b).len() && (a + b)[q] == x;
    if q < a.len() {
        assert(a[q] == x);
    } else {
        assert(b[q - a.len()] == x);
    }
}

proof fn lemma_airport_in(st: State, ci: City, aps: Seq<Airport>, cycle: Seq<char>, c: int, d: int)
    requires
        0 <= c < aps.len(),
        0 <= d < aps[c].chart_records@.len(),
        is_kept(aps[c].chart_records@[d]),
    ensures
        airport_charts(st, ci, aps, cycle).contains(
            chart_of(st, ci, aps[c], aps[c].chart_records@[d], cycle),
        ),
    decreases aps.len(),
{
    let prev = aps.drop_last();
    let x = chart_of(st, ci, aps[c], aps[c].chart_records@[d], cycle);
    if c == aps.len() - 1 {
        lemma_record_in(st, ci, aps[c], aps[c].chart_records@, cycle, d);
        lemma_in_concat(
            airport_charts(st, ci, prev, cycle),
            record_charts(st, ci, aps.last(), aps.last().chart_records@, cycle),
            x,
        );
    } else {
        assert(prev[c] == aps[c]);
        lemma_airport_in(st, ci, prev, cycle, c, d);
        lemma_in_concat(
            airport_charts(st, ci, prev, cycle),
            record_charts(st, ci, aps.last(), aps.last().chart_records@, cycle),
            x,
        );
    }
}

proof fn lemma_city_in(st: State, cis: Seq<City>, cycle: Seq<char>, b: int, c: int, d: int)
    requires
        0 <= b < cis.len(),
        0 <= c < cis[b].airports@.len(),
        0 <= d < cis[b].airports@[c].chart_records@.len(),
        is_kept(cis[b].airports@[c].chart_records@[d]),
    ensures
        city_charts(st, cis, cycle).contains(
            chart_of(
                st,
                cis[b],
                cis[b].airports@[c],
                cis[b].airports@[c].chart_records@[d],
                cycle,
            ),
        ),
    decreases cis.len(),
{
    let prev = cis.drop_last();
    let x = chart_of(st, cis[b], cis[b].airports@[c], cis[b].airports@[c].chart_records@[d], cycle);
    if b == cis.len() - 1 {
        lemma_airport_in(st, cis[b], cis[b].airports@, cycle, c, d);
    } else {
        assert(prev[b] == cis[b]);
        lemma_city_in(st, prev, cycle, b, c, d);
    }
    lemma_in_concat(
        city_charts(st, prev, cycle),
        airport_charts(st, cis.last(), cis.last().airports@, cycle),
        x,
    );
}

proof fn lemma_state_in(sts: Seq<State>, cycle: Seq<char>, a: int, b: int, c: int, d: int)
    requires
        0 <= a < sts.len(),
        0 <= b < sts[a].cities@.len(),
        0 <= c < sts[a].cities@[b].airports@.len(),
        0 <= d < sts[a].cities@[b].airports@[c].chart_records@.len(),
        is_kept(sts[a].cities@[b].airports@[c].chart_records@[d]),
    ensures
        state_charts(sts, cycle).contains(
            chart_of(
                sts[a],
                sts[a].cities@[b],
                sts[a].cities@[b].airports@[c],
                sts[a].cities@[b].airports@[c].chart_records@[d],
                cycle,
            ),
        ),
    decreases sts.len(),
{
    let prev = sts.drop_last();
    let x = chart_of(
        sts[a],
        sts[a].cities@[b],
        sts[a].cities@[b].airports@[c],
        sts[a].cities@[b].airports@[c].chart_records@[d],
        cycle,
    );
    if a == sts.len() - 1 {
        lemma_city_in(sts[a], sts[a].cities@, cycle, b, c, d);
    } else {
        assert(prev[a] == sts[a]);
        lemma_state_in(prev, cycle, a, b, c, d);
    }
    lemma_in_concat(
        state_charts(prev, cycle),
        city_charts(sts.last(), sts.last().cities@, cycle),
        x,
    );
}

/// Every record of the metafile whose user action is not exactly `D` (new,
/// changed or unmarked records alike) has its chart, field by field, among
/// the charts under its airport's FAA identifier.
pub proof fn lemma_kept_records_are_indexed(
    dtpp: DigitalTpp,
    cycle: Seq<char>,
    a: int,
    b: int,
    c: int,
    d: int,
)
    requires
        record_at(dtpp, a, b, c, d),
        dtpp.states@[a].cities@[b].airports@[c].chart_records@[d].useraction@ != "D"@,
    ensures
        entries_get(
            faa_index_of(metafile_charts(dtpp, cycle)),
            dtpp.states@[a].cities@[b].airports@[c].apt_ident@,
        ) matches Some(cs) && has_chart_of_record(
            cs,
            dtpp.states@[a],
            dtpp.states@[a].cities@[b],
            dtpp.states@[a].cities@[b].airports@[c],
            dtpp.states@[a].cities@[b].airports@[c].chart_records@[d],
            cycle,
        ),
{
    let st = dtpp.states@[a];
    let ci = st.cities@[b];
    let ap = ci.airports@[c];
    let rec = ap.chart_records@[d];
    let s = metafile_charts(dtpp, cycle);
    let x = chart_of(st, ci, ap, rec, cycle);
    lemma_state_in(dtpp.states@, cycle, a, b, c, d);
    let i = choose|i: int| 0 <= i < s.len() && s[i] == x;
    lemma_charts_of_ident_has(s, ap.apt_ident@, i);
    lemma_faa_index_is_partition(s, ap.apt_ident@);
    let cs = charts_of_ident(s, ap.apt_ident@);
    let j = choose|j: int| 0 <= j < cs.len() && cs[j] == x;
    assert(carries_record(cs[j], st, ci, ap, rec, cycle));
}

/// Some kept record of the records is the source of `x`.
spec fn from_records(st: State, ci: City, ap: Airport, recs: Seq<ChartRecord>, cycle: Seq<char>, x: ChartView) -> bool {
    exists|d: int| 0 <= d < recs.len() && is_kept(recs[d]) && x == chart_of(st, ci, ap, #[trigger] recs[d], cycle)
}

spec fn from_airports(st: State, ci: City, aps: Seq<Airport>, cycle: Seq<char>, x: ChartView) -> bool {
    exists|c: int| 0 <= c < aps.len() && from_records(st, ci, #[trigger] aps[c], aps[c].chart_records@, cycle, x)
}

spec fn from_cities(st: State, cis: Seq<City>, cycle: Seq<char>, x: ChartView) -> bool {
    exists|b: int| 0 <= b < cis.len() && from_airports(st, #[trigger] cis[b], cis[b].airports@, cycle, x)
}

spec fn from_states(sts: Seq<State>, cycle: Seq<char>, x: ChartView) -> bool {
    exists|a: int| 0 <= a < sts.len() && from_cities(#[trigger] sts[a], sts[a].cities@, cycle, x)
}

proof fn lemma_record_from(st: State, ci: City, ap: Airport, recs: Seq<ChartRecord>, cycle: Seq<char>, x: ChartView)
    requires
        record_charts(st, ci, ap, recs, cycle).contains(x),
    ensures
        from_records(st, ci, ap, recs, cycle, x),
    decreases recs.len(),
{
    let prev = recs.drop_last();
    let r = record_charts(st, ci, ap, prev, cycle);
    let q = choose|q: int| 0 <= q < record_charts(st, ci, ap, recs, cycle).len() && record_charts(st, ci, ap, recs, cycle)[q] == x;
    if q < r.len() {
        assert(r[q] == x);
        lemma_record_from(st, ci, ap, prev, cycle, x);
        let d = choose|d: int| 0 <= d < prev.len() && is_kept(prev[d]) && x == chart_of(st, ci, ap, #[trigger] prev[d], cycle);
        assert(recs[d] == prev[d]);
    } else {
        assert(recs[recs.len() - 1] == recs.last());
    }
}

proof fn lemma_airport_from(st: State, ci: City, aps: Seq<Airport>, cycle: Seq<char>, x: ChartView)
    requires
        airport_charts(st, ci, aps, cycle).contains(x),
    ensures
        from_airports(st, ci, aps, cycle, x),
    decreases aps.len(),
{
    let prev = aps.drop_last();
    lemma_concat_parts(
        airport_charts(st, ci, prev, cycle),
        record_charts(st, ci, aps.last(), aps.last().chart_records@, cycle),
        x,
    );
    if airport_charts(st, ci, prev, cycle).contains(x) {
        lemma_airport_from(st, ci, prev, cycle, x);
        let c = choose|c: int| 0 <= c < prev.len() && from_records(st, ci, #[trigger] prev[c], prev[c].chart_records@, cycle, x);
        assert(aps[c] == prev[c]);
    } else {
        lemma_record_from(st, ci, aps.last(), aps.last().chart_records@, cycle, x);
        assert(aps[aps.len() - 1] == aps.last());
    }
}

proof fn lemma_city_from(st: State, cis: Seq<City>, cycle: Seq<char>, x: ChartView)
    requires
        city_charts(st, cis, cycle).contains(x),
    ensures
        from_cities(st, cis, cycle, x),
    decreases cis.len(),
{
    let prev = cis.drop_last();
    lemma_concat_parts(
        city_charts(st, prev, cycle),
        airport_charts(st, cis.last(), cis.last().airports@, cycle),
        x,
    );
    if city_charts(st, prev, cycle).contains(x) {
        lemma_city_from(st, prev, cycle, x);
        let b = choose|b: int| 0 <= b < prev.len() && from_airports(st, #[trigger] prev[b], prev[b].airports@, cycle, x);
        assert(cis[b] == prev[b]);
    } else {
        lemma_airport_from(st, cis.last(), cis.last().airports@, cycle, x);
        assert(cis[cis.len() - 1] == cis.last());
    }
}

proof fn lemma_state_from(sts: Seq<State>, cycle: Seq<char>, x: ChartView)
    requires
        state_charts(sts, cycle).contains(x),
    ensures
        from_states(sts, cycle, x),
    decreases sts.len(),
{
    let prev = sts.drop_last();
    lemma_concat_parts(
        state_charts(prev, cycle),
        city_charts(sts.last(), sts.last().cities@, cycle),
        x,
    );
    if state_charts(prev, cycle).contains(x) {
        lemma_state_from(prev, cycle, x);
        let a = choose|a: int| 0 <= a < prev.len() && from_cities(#[trigger] prev[a], prev[a].cities@, cycle, x);
        assert(sts[a] == prev[a]);
    } else {
        lemma_city_from(sts.last(), sts.last().cities@, cycle, x);
        assert(sts[sts.len() - 1] == sts.last());
    }
}

/// Every chart under an FAA identifier of the index is the chart, field by
/// field, of a record of the metafile whose user action is not exactly `D`,
/// of an airport with that identifier: deleted records give no chart of
/// their own.
pub proof fn lemma_indexed_charts_have_kept_records(
    dtpp: DigitalTpp,
    cycle: Seq<char>,
    k: Seq<char>,
    j: int,
)
    requires
        entries_get(faa_index_of(metafile_charts(dtpp, cycle)), k) matches Some(cs) && 0 <= j
            < cs.len(),
    ensures
        exists|a: int, b: int, c: int, d: int|
            #[trigger] kept_source(
                dtpp,
                cycle,
                a,
                b,
                c,
                d,
                entries_get(faa_index_of(metafile_charts(dtpp, cycle)), k)->0[j],
            ) && dtpp.states@[a].cities@[b].airports@[c].apt_ident@ == k,
{
    let s = metafile_charts(dtpp, cycle);
    lemma_faa_index_is_partition(s, k);
    let cs = charts_of_ident(s, k);
    let x = cs[j];
    lemma_charts_of_ident_members(s, k, j);
    lemma_state_from(dtpp.states@, cycle, x);
    let sts = dtpp.states@;
    let a = choose|a: int| 0 <= a < sts.len() && from_cities(#[trigger] sts[a], sts[a].cities@, cycle, x);
    let st = sts[a];
    let b = choose|b: int| 0 <= b < st.cities@.len() && from_airports(st, #[trigger] st.cities@[b], st.cities@[b].airports@, cycle, x);
    let ci = st.cities@[b];
    let c = choose|c: int| 0 <= c < ci.airports@.len() && from_records(st, ci, #[trigger] ci.airports@[c], ci.airports@[c].chart_records@, cycle, x);
    let ap = ci.airports@[c];
    let d = choose|d: int| 0 <= d < ap.chart_records@.len() && is_kept(ap.chart_records@[d]) && x == chart_of(st, ci, ap, #[trigger] ap.chart_records@[d], cycle);
    assert(kept_source(dtpp, cycle, a, b, c, d, x));
}


/// The group of each chart code: `IAP` approaches; `ODP`, `DP`, `DAU`
/// departures; `STAR` arrivals; `APD` diagrams; every other code general.
pub proof fn lemma_chart_group_table(code: Seq<char>)
    ensures
        spec_chart_group("IAP"@) == ChartGroup::Approaches,
        spec_chart_group("ODP"@) == ChartGroup::Departures,
        spec_chart_group("DP"@) == ChartGroup::Departures,
        spec_chart_group("DAU"@) == ChartGroup::Departures,
        spec_chart_group("STAR"@) == ChartGroup::Arrivals,
        spec_chart_group("APD"@) == ChartGroup::Apd,
        code != "IAP"@ && code != "ODP"@ && code != "DP"@ && code != "DAU"@ && code != "STAR"@
            && code != "APD"@ ==> spec_chart_group(code) == ChartGroup::General,
{
    reveal_strlit("IAP");
    reveal_strlit("ODP");
    reveal_strlit("DP");
    reveal_strlit("DAU");
    reveal_strlit("STAR");
    reveal_strlit("APD");
    assert("ODP"@[0] != "IAP"@[0]);
    assert("DP"@.len() != "IAP"@.len());
    assert("DP"@.len() != "ODP"@.len());
    assert("DAU"@[0] != "IAP"@[0]);
    assert("DAU"@[0] != "ODP"@[0]);
    assert("STAR"@.len() != "IAP"@.len());
    assert("APD"@[0] != "IAP"@[0]);
    assert("APD"@[0] != "ODP"@[0]);
    assert("APD"@[0] != "DAU"@[0]);
}

/// Every chart with an ICAO identifier puts that identifier in the ICAO
/// index, and the index maps it to the FAA identifier of the last chart
/// carrying it.
pub proof fn lemma_icao_index_last_wins(charts: Seq<ChartView>, i: int)
    requires
        0 <= i < charts.len(),
        charts[i].icao_ident.len() != 0,
    ensures
        icao_index_of(charts).contains_key(charts[i].icao_ident),
        (forall|j: int| i < j < charts.len() ==> #[trigger] charts[j].icao_ident != charts[i].icao_ident)
            ==> icao_index_of(charts)[charts[i].icao_ident] == charts[i].faa_ident,
    decreases charts.len(),
{
    let prev = charts.drop_last();
    if i < charts.len() - 1 {
        assert(prev[i] == charts[i]);
        lemma_icao_index_last_wins(prev, i);
        if forall|j: int| i < j < charts.len() ==> #[trigger] charts[j].icao_ident != charts[i].icao_ident {
            assert forall|j: int| i < j < prev.len() implies #[trigger] prev[j].icao_ident
                != prev[i].icao_ident by {
                assert(prev[j] == charts[j]);
            }
            assert(charts[charts.len() - 1].icao_ident != charts[i].icao_ident);
        }
    }
}

} // verus!
