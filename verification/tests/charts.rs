use chartsapi::chart_index::{charts_maps_from_metafile, chart_group_for_code, lookup_charts, ChartsHashMaps};
use chartsapi::cycle::{
    check_effective, cycle_from_edition, cycle_string, load_charts, load_charts_at, two_digit_year,
    CycleError, LoadError, Timestamp,
};
use chartsapi::faa_metafile::{Airport, ChartRecord, City, DigitalTpp, Edition, State};
use chartsapi::grouping::{apply_group_param, filter_group_by_types, group_types};
use chartsapi::host::{faa_cycle_url, set_host_for_chart_pdf, set_host_for_charts, ChartsHost};
use chartsapi::queries::{charts_response, find_chart_in, find_chart_pdf, host_or_faa, ChartsAnswer};
use chartsapi::response_dtos::{ChartDto, ChartGroup, GroupedChartsDto, ResponseDto};
use chartsapi::reload::{eq_ignore_ascii_case, reload_action, ReloadAction};
use chartsapi::text::{filter_alphabetic, split_commas, str_contains, str_eq};

fn s(x: &str) -> String {
    x.to_string()
}

fn record(code: &str, name: &str, pdf: &str, action: &str) -> ChartRecord {
    ChartRecord {
        chartseq: s("10100"),
        chart_code: s(code),
        chart_name: s(name),
        useraction: s(action),
        pdf_name: s(pdf),
        cn_flg: s("N"),
        cnsection: s(""),
        cnpage: s(""),
        bvsection: s("C"),
        bvpage: s(""),
        procuid: s(""),
        two_colored: s("N"),
        civil: s(""),
        faanfd18: s(""),
        copter: s(""),
        amdtnum: s(""),
        amdtdate: s(""),
    }
}

fn airport(id: &str, ident: &str, icao: &str, records: Vec<ChartRecord>) -> Airport {
    Airport {
        id: s(id),
        military: s("N"),
        apt_ident: s(ident),
        icao_ident: s(icao),
        alnum: s("1"),
        chart_records: records,
    }
}

fn metafile(effective: &str) -> DigitalTpp {
    DigitalTpp {
        cycle: s("2508"),
        from_effective_date: s(effective),
        to_effective_date: s("0901Z 09/04/25"),
        states: vec![
            State {
                id: s("CA"),
                full_name: s("CALIFORNIA"),
                cities: vec![City {
                    id: s("SAN FRANCISCO"),
                    volume: s("SW-2"),
                    airports: vec![airport(
                        "SAN FRANCISCO INTL",
                        "SFO",
                        "KSFO",
                        vec![
                            record("APD", "AIRPORT DIAGRAM", "00375AD.PDF", ""),
                            record("IAP", "ILS OR LOC RWY 28L", "00375IL28L.PDF", "A"),
                            record("DP", "SFO NINE", "00375SFO.PDF", ""),
                            record("STAR", "BDEGA FOUR (RNAV)", "00375BDEGA.PDF", ""),
                            record("MIN", "TAKEOFF MINIMUMS", "SW2TO.PDF", ""),
                            record("HOT", "HOT SPOT", "00375HOT.PDF", "D"),
                        ],
                    )],
                }],
            },
            State {
                id: s("AK"),
                full_name: s("ALASKA"),
                cities: vec![City {
                    id: s("BETTLES"),
                    volume: s("AK-1"),
                    airports: vec![airport(
                        "BETTLES",
                        "BTT",
                        "",
                        vec![record("ODP", "BETTLES DEPARTURE", "BTTODP.PDF", "")],
                    )],
                }],
            },
        ],
    }
}

fn chart(name: &str, group: ChartGroup, path: &str) -> ChartDto {
    ChartDto {
        state: s("CA"),
        state_full: s("CALIFORNIA"),
        city: s("SAN FRANCISCO"),
        volume: s("SW-2"),
        airport_name: s("SAN FRANCISCO INTL"),
        military: s("N"),
        faa_ident: s("SFO"),
        icao_ident: s("KSFO"),
        chart_seq: s("10100"),
        chart_code: s("X"),
        chart_name: s(name),
        pdf_name: s(path),
        pdf_path: s(path),
        chart_group: group,
    }
}

fn sample_charts() -> Vec<ChartDto> {
    vec![
        chart("AIRPORT DIAGRAM", ChartGroup::Apd, "AD.PDF"),
        chart("TAKEOFF MINIMUMS", ChartGroup::General, "TO.PDF"),
        chart("SFO NINE", ChartGroup::Departures, "DP.PDF"),
        chart("BDEGA FOUR (RNAV)", ChartGroup::Arrivals, "STAR.PDF"),
        chart("ILS OR LOC RWY 28L", ChartGroup::Approaches, "IAP.PDF"),
    ]
}

fn names(charts: &[ChartDto]) -> Vec<String> {
    charts.iter().map(|c| c.chart_name.clone()).collect()
}

fn loaded() -> ChartsHashMaps {
    charts_maps_from_metafile(&metafile("0901Z 08/07/25"), "2508")
}

#[test]
fn try_from_reads_host_names_in_any_case() {
    assert!(matches!(ChartsHost::try_from(&None), None));
    assert!(matches!(ChartsHost::try_from(&Some(s("FAA"))), Some(ChartsHost::Faa)));
    assert!(matches!(ChartsHost::try_from(&Some(s("faa"))), Some(ChartsHost::Faa)));
    assert!(matches!(ChartsHost::try_from(&Some(s("mirror"))), Some(ChartsHost::Mirror)));
    assert!(matches!(ChartsHost::try_from(&Some(s("MiRrOr"))), Some(ChartsHost::Mirror)));
    assert!(matches!(ChartsHost::try_from(&Some(s("faa "))), None));
    assert!(matches!(ChartsHost::try_from(&Some(s(""))), None));
}

#[test]
fn from_upper_needs_the_exact_uppercase_name() {
    assert!(matches!(ChartsHost::from_upper("MIRROR"), Some(ChartsHost::Mirror)));
    assert!(matches!(ChartsHost::from_upper("FAA"), Some(ChartsHost::Faa)));
    assert!(matches!(ChartsHost::from_upper("faa"), None));
}

#[test]
fn host_base_urls() {
    assert_eq!(ChartsHost::Faa.get_host_base_url(), "https://aeronav.faa.gov/d-tpp");
    assert_eq!(ChartsHost::Mirror.get_host_base_url(), "https://aeronav.flightsimapi.com/d-tpp");
    assert!(matches!(host_or_faa(&None), ChartsHost::Faa));
    assert!(matches!(host_or_faa(&Some(s("nowhere"))), ChartsHost::Faa));
    assert!(matches!(host_or_faa(&Some(s("Mirror"))), ChartsHost::Mirror));
}

#[test]
fn faa_cycle_url_joins_cycle() {
    assert_eq!(faa_cycle_url("2508"), "https://aeronav.faa.gov/d-tpp/2508");
}

#[test]
fn set_host_prefixes_pdf_path() {
    let c = chart("SFO NINE", ChartGroup::Departures, "2508/00375SFO.PDF");
    let c = set_host_for_chart_pdf(c, ChartsHost::Mirror);
    assert_eq!(c.pdf_path, "https://aeronav.flightsimapi.com/d-tpp/2508/00375SFO.PDF");
    assert_eq!(c.pdf_name, "2508/00375SFO.PDF");
    assert_eq!(c.chart_name, "SFO NINE");

    let all = set_host_for_charts(sample_charts(), ChartsHost::Faa);
    assert_eq!(all.len(), 5);
    assert_eq!(all[0].pdf_path, "https://aeronav.faa.gov/d-tpp/AD.PDF");
    assert_eq!(all[4].pdf_path, "https://aeronav.faa.gov/d-tpp/IAP.PDF");
    assert!(set_host_for_charts(vec![], ChartsHost::Faa).is_empty());
}

#[test]
fn chart_codes_map_to_groups() {
    assert!(matches!(chart_group_for_code("IAP"), ChartGroup::Approaches));
    assert!(matches!(chart_group_for_code("ODP"), ChartGroup::Departures));
    assert!(matches!(chart_group_for_code("DP"), ChartGroup::Departures));
    assert!(matches!(chart_group_for_code("DAU"), ChartGroup::Departures));
    assert!(matches!(chart_group_for_code("STAR"), ChartGroup::Arrivals));
    assert!(matches!(chart_group_for_code("APD"), ChartGroup::Apd));
    assert!(matches!(chart_group_for_code("MIN"), ChartGroup::General));
    assert!(matches!(chart_group_for_code("LAH"), ChartGroup::General));
    assert!(matches!(chart_group_for_code("HOT"), ChartGroup::General));
    assert!(matches!(chart_group_for_code("iap"), ChartGroup::General));
}

fn flat(r: ResponseDto) -> Vec<String> {
    match r {
        ResponseDto::Charts(v) => names(&v),
        ResponseDto::GroupedCharts(_) => panic!("expected a flat list"),
    }
}

fn grouped(r: ResponseDto) -> GroupedChartsDto {
    match r {
        ResponseDto::GroupedCharts(g) => g,
        ResponseDto::Charts(_) => panic!("expected sections"),
    }
}

#[test]
fn group_param_selects_charts() {
    let charts = sample_charts();
    assert_eq!(flat(apply_group_param(&charts, None)).len(), 5);
    assert_eq!(flat(apply_group_param(&charts, Some(2))), vec!["AIRPORT DIAGRAM"]);
    assert_eq!(
        flat(apply_group_param(&charts, Some(3))),
        vec!["AIRPORT DIAGRAM", "TAKEOFF MINIMUMS"]
    );
    assert_eq!(flat(apply_group_param(&charts, Some(4))), vec!["SFO NINE"]);
    assert_eq!(flat(apply_group_param(&charts, Some(5))), vec!["BDEGA FOUR (RNAV)"]);
    assert_eq!(flat(apply_group_param(&charts, Some(6))), vec!["ILS OR LOC RWY 28L"]);
    assert!(flat(apply_group_param(&charts, Some(0))).is_empty());
    assert!(flat(apply_group_param(&charts, Some(8))).is_empty());
    assert!(flat(apply_group_param(&charts, Some(-3))).is_empty());
}

#[test]
fn group_param_one_and_seven_give_sections() {
    let charts = sample_charts();
    let g1 = grouped(apply_group_param(&charts, Some(1)));
    assert_eq!(names(&g1.general), vec!["AIRPORT DIAGRAM", "TAKEOFF MINIMUMS"]);
    assert_eq!(names(&g1.dp), vec!["SFO NINE"]);
    assert_eq!(names(&g1.star), vec!["BDEGA FOUR (RNAV)"]);
    assert_eq!(names(&g1.capp), vec!["ILS OR LOC RWY 28L"]);

    let g7 = grouped(apply_group_param(&charts, Some(7)));
    assert!(g7.general.is_empty());
    assert_eq!(names(&g7.dp), vec!["SFO NINE"]);
    assert_eq!(names(&g7.star), vec!["BDEGA FOUR (RNAV)"]);
    assert_eq!(names(&g7.capp), vec!["ILS OR LOC RWY 28L"]);
}

#[test]
fn filter_by_types_keeps_order_and_is_idempotent() {
    let charts = sample_charts();
    let types = vec![ChartGroup::Approaches, ChartGroup::Apd];
    let once = flat(filter_group_by_types(&charts, &types, false));
    assert_eq!(once, vec!["AIRPORT DIAGRAM", "ILS OR LOC RWY 28L"]);
    let kept = match filter_group_by_types(&charts, &types, false) {
        ResponseDto::Charts(v) => v,
        ResponseDto::GroupedCharts(_) => panic!("expected a flat list"),
    };
    assert_eq!(flat(filter_group_by_types(&kept, &types, false)), once);
    assert!(flat(filter_group_by_types(&charts, &[], false)).is_empty());
    assert_eq!(group_types(7), vec![ChartGroup::Departures, ChartGroup::Arrivals, ChartGroup::Approaches]);
}

#[test]
fn metafile_index_groups_charts_by_airport() {
    let maps = loaded();
    let sfo = maps.faa.get("SFO").expect("SFO indexed");
    assert_eq!(sfo.len(), 5);
    assert_eq!(sfo[0].pdf_path, "2508/00375AD.PDF");
    assert_eq!(sfo[1].chart_group, ChartGroup::Approaches);
    assert_eq!(sfo[4].chart_group, ChartGroup::General);
    assert_eq!(sfo[0].state_full, "CALIFORNIA");
    assert_eq!(sfo[0].icao_ident, "KSFO");
    assert!(sfo.iter().all(|c| c.chart_name != "HOT SPOT"));
    let btt = maps.faa.get("BTT").expect("BTT indexed");
    assert_eq!(btt.len(), 1);
    assert_eq!(maps.icao.get("KSFO").map(|x| x.as_str()), Some("SFO"));
    assert_eq!(maps.icao.len(), 1);
    assert_eq!(maps.faa.len(), 2);
}

#[test]
fn lookup_by_faa_and_icao_identifier() {
    let maps = loaded();
    let by_faa = lookup_charts("SFO", ChartsHost::Faa, &maps).expect("charts");
    assert_eq!(by_faa.len(), 5);
    assert_eq!(by_faa[0].pdf_path, "https://aeronav.faa.gov/d-tpp/2508/00375AD.PDF");
    let by_icao = lookup_charts("ksfo", ChartsHost::Mirror, &maps).expect("charts");
    assert_eq!(by_icao.len(), 5);
    assert_eq!(by_icao[2].pdf_path, "https://aeronav.flightsimapi.com/d-tpp/2508/00375SFO.PDF");
    assert!(lookup_charts("sfo", ChartsHost::Faa, &maps).is_none());
    assert!(lookup_charts("XXX", ChartsHost::Faa, &maps).is_none());
    assert!(lookup_charts("", ChartsHost::Faa, &maps).is_none());
}

#[test]
fn load_refuses_future_and_unparsable_publications() {
    let dtpp = metafile("0901Z 08/07/25");
    // 2025-08-07 09:01:00 UTC
    let start = 1_754_557_260i64;
    match load_charts_at(&dtpp, "2508", Timestamp { secs: start, nanos: 0 }) {
        Ok(maps) => assert_eq!(maps.faa.len(), 2),
        Err(e) => panic!("unexpected {:?}", e),
    }
    match load_charts_at(&dtpp, "2508", Timestamp { secs: start - 1, nanos: 999_999_999 }) {
        Err(LoadError::NotYetEffective { effective, .. }) => {
            assert_eq!(effective, Timestamp { secs: start, nanos: 0 })
        }
        _ => panic!("expected NotYetEffective"),
    }
    let bad = metafile("08/07/25");
    assert!(matches!(
        load_charts_at(&bad, "2508", Timestamp { secs: start, nanos: 0 }),
        Err(LoadError::InvalidEffectiveDate)
    ));
    assert!(load_charts(&dtpp, "2508").is_ok());
    assert!(matches!(load_charts(&metafile("0901Z 08/07/68"), "6808"), Err(LoadError::NotYetEffective { .. })));
}

#[test]
fn check_effective_compares_instants() {
    let a = Timestamp { secs: 10, nanos: 5 };
    assert_eq!(check_effective(a, Timestamp { secs: 10, nanos: 5 }), Ok(()));
    assert_eq!(check_effective(a, Timestamp { secs: 11, nanos: 0 }), Ok(()));
    let now = Timestamp { secs: 10, nanos: 4 };
    assert_eq!(check_effective(a, now), Err(LoadError::NotYetEffective { effective: a, now }));
}

fn edition(date: &str, number: &str) -> Edition {
    Edition {
        geoname: s("US"),
        name: s("Digital-Terminal Procedures Publication"),
        format: s("ZIP"),
        date: s(date),
        number: s(number),
    }
}

#[test]
fn cycle_from_edition_pads_number() {
    assert_eq!(cycle_from_edition(&edition("08/07/2025", "8")), Ok(s("2508")));
    assert_eq!(cycle_from_edition(&edition("12/25/2025", "13")), Ok(s("2513")));
    assert_eq!(cycle_from_edition(&edition("01/02/2003", "1")), Ok(s("0301")));
    assert_eq!(cycle_from_edition(&edition("2025-08-07", "8")), Err(CycleError::InvalidEditionDate));
}

#[test]
fn two_digit_years() {
    assert_eq!(two_digit_year(2025), "25");
    assert_eq!(two_digit_year(2005), "05");
    assert_eq!(two_digit_year(1900), "00");
    assert_eq!(two_digit_year(-1), "99");
    assert_eq!(two_digit_year(-250), "50");
    assert_eq!(cycle_string(2025, "08"), "2508");
    assert_eq!(cycle_string(2025, "123"), "250123");
}

fn found(a: ChartsAnswer) -> indexmap::IndexMap<String, ResponseDto> {
    match a {
        ChartsAnswer::Found(m) => m,
        ChartsAnswer::MissingAirport => panic!("missing airport"),
        ChartsAnswer::InvalidGroup => panic!("invalid group"),
    }
}

#[test]
fn charts_response_validates_request() {
    let maps = loaded();
    assert!(matches!(charts_response(&maps, &None, None, &None), ChartsAnswer::MissingAirport));
    assert!(matches!(charts_response(&maps, &Some(s("  \t")), None, &None), ChartsAnswer::MissingAirport));
    assert!(matches!(charts_response(&maps, &Some(s("")), Some(9), &None), ChartsAnswer::MissingAirport));
    assert!(matches!(charts_response(&maps, &Some(s("SFO")), Some(0), &None), ChartsAnswer::InvalidGroup));
    assert!(matches!(charts_response(&maps, &Some(s("SFO")), Some(8), &None), ChartsAnswer::InvalidGroup));
}

#[test]
fn charts_response_answers_each_airport_once() {
    let maps = loaded();
    let m = found(charts_response(&maps, &Some(s("ksfo,btt,nope,sfo,KSFO")), Some(2), &Some(s("mirror"))));
    let keys: Vec<&str> = m.keys().map(|k| k.as_str()).collect();
    assert_eq!(keys, vec!["KSFO", "BTT", "SFO"]);
    match &m["KSFO"] {
        ResponseDto::Charts(v) => {
            assert_eq!(v.len(), 1);
            assert_eq!(v[0].pdf_path, "https://aeronav.flightsimapi.com/d-tpp/2508/00375AD.PDF");
        }
        ResponseDto::GroupedCharts(_) => panic!("expected a flat list"),
    }
    match &m["BTT"] {
        ResponseDto::Charts(v) => assert!(v.is_empty()),
        ResponseDto::GroupedCharts(_) => panic!("expected a flat list"),
    }
    let m = found(charts_response(&maps, &Some(s(" sfo")), None, &None));
    assert!(m.is_empty());
    let m = found(charts_response(&maps, &Some(s("sfo")), Some(7), &None));
    match &m["SFO"] {
        ResponseDto::GroupedCharts(g) => {
            assert!(g.general.is_empty());
            assert_eq!(names(&g.capp), vec!["ILS OR LOC RWY 28L"]);
        }
        ResponseDto::Charts(_) => panic!("expected sections"),
    }
}

#[test]
fn chart_search_prefers_name_then_procedure_letters() {
    let maps = loaded();
    assert_eq!(
        find_chart_pdf(&maps, "sfo", "diagram", &None),
        Some(s("https://aeronav.faa.gov/d-tpp/2508/00375AD.PDF"))
    );
    assert_eq!(
        find_chart_pdf(&maps, "KSFO", "28L", &Some(s("mirror"))),
        Some(s("https://aeronav.flightsimapi.com/d-tpp/2508/00375IL28L.PDF"))
    );
    // "bdega4" does not occur; its letters "BDEGA" name an arrival
    assert_eq!(
        find_chart_pdf(&maps, "sfo", "bdega4", &None),
        Some(s("https://aeronav.faa.gov/d-tpp/2508/00375BDEGA.PDF"))
    );
    // the letters "LOC" name only an approach, which the second search skips
    assert_eq!(find_chart_pdf(&maps, "sfo", "loc-28", &None), None);
    assert_eq!(find_chart_pdf(&maps, "nope", "diagram", &None), None);
}

#[test]
fn find_chart_in_takes_first_match() {
    let charts = sample_charts();
    assert_eq!(find_chart_in(&charts, "R", "X"), Some(s("AD.PDF")));
    assert_eq!(find_chart_in(&charts, "", "X"), Some(s("AD.PDF")));
    assert_eq!(find_chart_in(&charts, "ZZZ", "NINE"), Some(s("DP.PDF")));
    assert_eq!(find_chart_in(&charts, "ZZZ", "RWY"), None);
    assert_eq!(find_chart_in(&[], "A", "A"), None);
}

#[test]
fn text_helpers() {
    assert_eq!(split_commas("a,b"), vec![s("a"), s("b")]);
    assert_eq!(split_commas(""), vec![s("")]);
    assert_eq!(split_commas(",x,,"), vec![s(""), s("x"), s(""), s("")]);
    assert!(str_contains("ILS RWY 28L", "28L"));
    assert!(str_contains("abc", ""));
    assert!(!str_contains("ab", "abc"));
    assert!(!str_contains("abc", "ac"));
    assert_eq!(filter_alphabetic("ils-28L é1"), "ilsLé");
    assert!(str_eq("abc", "abc"));
    assert!(!str_eq("abc", "abd"));
    assert!(!str_eq("abc", "ab"));
}

#[test]
fn faa_index_keeps_first_occurrence_order() {
    let mut dtpp = metafile("0901Z 08/07/25");
    // a second SFO airport after BTT adds to the SFO entry, which stays first
    dtpp.states[1].cities[0].airports.push(airport(
        "SAN FRANCISCO INTL",
        "SFO",
        "KSFO",
        vec![record("IAP", "RNAV (GPS) RWY 28R", "00375R28R.PDF", "")],
    ));
    let maps = charts_maps_from_metafile(&dtpp, "2508");
    let keys: Vec<&str> = maps.faa.keys().map(|k| k.as_str()).collect();
    assert_eq!(keys, vec!["SFO", "BTT"]);
    let sfo = &maps.faa["SFO"];
    assert_eq!(sfo.len(), 6);
    assert_eq!(sfo[5].chart_name, "RNAV (GPS) RWY 28R");
    assert_eq!(sfo[5].state, "AK");
}

#[test]
fn unknown_host_answers_like_faa() {
    let maps = loaded();
    for host in [None, Some(s("xyz")), Some(s("Faa")), Some(s("FAA"))] {
        let m = found(charts_response(&maps, &Some(s("sfo")), Some(2), &host));
        match &m["SFO"] {
            ResponseDto::Charts(v) => {
                assert_eq!(v[0].pdf_path, "https://aeronav.faa.gov/d-tpp/2508/00375AD.PDF")
            }
            ResponseDto::GroupedCharts(_) => panic!("expected a flat list"),
        }
    }
    assert!(matches!(ChartsHost::try_from(&Some(format!("{:?}", ChartsHost::Mirror))), Some(ChartsHost::Mirror)));
    assert!(matches!(ChartsHost::try_from(&Some(format!("{:?}", ChartsHost::Faa))), Some(ChartsHost::Faa)));
}

#[test]
fn reload_only_for_a_new_cycle() {
    assert_eq!(reload_action("2508", &None), ReloadAction::KeepCurrent);
    assert_eq!(reload_action("2508", &Some(s("2508"))), ReloadAction::KeepCurrent);
    assert_eq!(reload_action("25ab", &Some(s("25AB"))), ReloadAction::KeepCurrent);
    assert_eq!(reload_action("2508", &Some(s("2509"))), ReloadAction::LoadCycle);
    assert_eq!(reload_action("2508", &Some(s("25080"))), ReloadAction::LoadCycle);
    assert!(eq_ignore_ascii_case("Straße", "STRAßE"));
    assert!(!eq_ignore_ascii_case("ß", "SS"));
}
