use vstd::prelude::*;

use crate::response_dtos::{ChartDto, ChartView, chart_views};
use crate::text::{ascii_upper, spec_upper, str_eq, to_uppercase};

verus! {

/// Base address of the FAA d-TPP distribution.
pub open spec fn spec_dtpp_base() -> Seq<char> {
    "https://aeronav.faa.gov/d-tpp"@
}

/// Base address of the mirror that serves the same files.
pub open spec fn spec_mirror_base() -> Seq<char> {
    "https://aeronav.flightsimapi.com/d-tpp"@
}

/// The server that chart PDF links point to.
#[derive(Debug, Clone, Copy, PartialEq, Eq, Structural)]
pub enum ChartsHost {
    Faa,
    Mirror,
}

impl ChartsHost {
    /// The base address that this host serves charts under.
    pub open spec fn base_url(self) -> Seq<char> {
        match self {
            ChartsHost::Faa => spec_dtpp_base(),
            ChartsHost::Mirror => spec_mirror_base(),
        }
    }

    /// The host named by an uppercased host parameter: `MIRROR` or `FAA`.
    pub open spec fn spec_from_upper(upper: Seq<char>) -> Option<ChartsHost> {
        if upper == "MIRROR"@ {
            Some(ChartsHost::Mirror)
        } else if upper == "FAA"@ {
            Some(ChartsHost::Faa)
        } else {
            None
        }
    }

    /// The host named by an optional host parameter, compared without regard
    /// to case.
    pub open spec fn spec_try_from(string: Option<Seq<char>>) -> Option<ChartsHost> {
        match string {
            Some(s) => ChartsHost::spec_from_upper(spec_upper(s)),
            None => None,
        }
    }

    /// Reads the host from a parameter that has already been uppercased.
    pub fn from_upper(upper: &str) -> (r: Option<Self>)
        ensures
            r == ChartsHost::spec_from_upper(upper@),
    {
        if str_eq(upper, "MIRROR") {
            Some(ChartsHost::Mirror)
        } else if str_eq(upper, "FAA") {
            Some(ChartsHost::Faa)
        } else {
            None
        }
    }

    /// Reads the host from an optional request parameter: `MIRROR` or `FAA`
    /// in any case; anything else, or no parameter, gives `None`.
    #[must_use]
    pub fn try_from(string: &Option<String>) -> (r: Option<Self>)
        ensures
            r == ChartsHost::spec_try_from(
                match string {
                    Some(s) => Some(s@),
                    None => None,
                },
            ),
    {
        match string {
            Some(s) => {
                let upper = to_uppercase(s.as_str());
                ChartsHost::from_upper(upper.as_str())
            },
            None => None,
        }
    }

    /// Returns the base address of the host.
    pub fn get_host_base_url(&self) -> (url: &'static str)
        ensures
            url@ == self.base_url(),
    {
        match self {
            ChartsHost::Faa => "https://aeronav.faa.gov/d-tpp",
            ChartsHost::Mirror => "https://aeronav.flightsimapi.com/d-tpp",
        }
    }
}

/// The chart with its PDF path put under the host's base address.
pub open spec fn with_host(c: ChartView, host: ChartsHost) -> ChartView {
    ChartView { pdf_path: host.base_url() + "/"@ + c.pdf_path, ..c }
}

/// The charts, each with its PDF path put under the host's base address.
pub open spec fn charts_with_host(charts: Seq<ChartView>, host: ChartsHost) -> Seq<ChartView> {
    charts.map_values(|c: ChartView| with_host(c, host))
}

/// The address of the directory of a publication cycle on the FAA host.
pub open spec fn spec_faa_cycle_url(cycle: Seq<char>) -> Seq<char> {
    spec_dtpp_base() + "/"@ + cycle
}

/// `base` followed by `/` and `rest`, as a new string.
fn join_path(base: &str, rest: &str) -> (r: String)
    ensures
        r@ == base@ + "/"@ + rest@,
{
    let r = base.to_owned();
    let r = r.concat("/");
    r.concat(rest)
}

/// Puts the chart's PDF path under the host's base address.
pub fn set_host_for_chart_pdf(chart: ChartDto, host: ChartsHost) -> (r: ChartDto)
    ensures
        r@ == with_host(chart@, host),
{
    let mut chart = chart;
    chart.pdf_path = join_path(host.get_host_base_url(), chart.pdf_path.as_str());
    chart
}

/// Puts the PDF path of every chart under the host's base address.
pub fn set_host_for_charts(charts: Vec<ChartDto>, host: ChartsHost) -> (r: Vec<ChartDto>)
    ensures
        chart_views(r@) == charts_with_host(chart_views(charts@), host),
{
    let mut charts = charts;
    let ghost orig = chart_views(charts@);
    let mut i: usize = 0;
    while i < charts.len()
        invariant
            orig.len() == charts@.len(),
            i <= charts@.len(),
            forall|j: int| 0 <= j < i ==> #[trigger] charts@[j]@ == with_host(orig[j], host),
            forall|j: int| i <= j < charts@.len() ==> #[trigger] charts@[j]@ == orig[j],
        decreases charts@.len() - i,
    {
        let ghost before = charts@[i as int];
        assert(before@ == orig[i as int]);
        let mut c = charts[i].clone();
        assert(c == before);
        let p = join_path(host.get_host_base_url(), c.pdf_path.as_str());
        assert(p@ == host.base_url() + "/"@ + before@.pdf_path);
        c.pdf_path = p;
        assert(c@ =~= with_host(orig[i as int], host));
        charts.set(i, c);
        i = i + 1;
    }
    assert(chart_views(charts@) =~= charts_with_host(orig, host));
    charts
}

/// The address of the directory of a publication cycle on the FAA host.
pub fn faa_cycle_url(current_cycle: &str) -> (r: String)
    ensures
        r@ == spec_faa_cycle_url(current_cycle@),
{
    join_path("https://aeronav.faa.gov/d-tpp", current_cycle)
}

/// The host parameter is read without regard to case: two parameters with
/// the same uppercase form name the same host.
pub proof fn lemma_host_ignores_case(a: Seq<char>, b: Seq<char>)
    requires
        spec_upper(a) == spec_upper(b),
    ensures
        ChartsHost::spec_try_from(Some(a)) == ChartsHost::spec_try_from(Some(b)),
{
}

/// Putting charts under a host keeps their number and order, and changes
/// nothing but the PDF path.
pub proof fn lemma_host_changes_only_links(charts: Seq<ChartView>, host: ChartsHost, i: int)
    requires
        0 <= i < charts.len(),
    ensures
        charts_with_host(charts, host).len() == charts.len(),
        charts_with_host(charts, host)[i] == (ChartView {
            pdf_path: charts_with_host(charts, host)[i].pdf_path,
            ..charts[i]
        }),
        charts_with_host(charts, host)[i].pdf_path == host.base_url() + "/"@ + charts[i].pdf_path,
{
}

/// The host names read in any ASCII case, and in particular the names that
/// the hosts print as (`Faa`, `Mirror`), read back as those hosts.
pub proof fn lemma_host_names_parse_back()
    ensures
        ChartsHost::spec_try_from(Some("Faa"@)) == Some(ChartsHost::Faa),
        ChartsHost::spec_try_from(Some("faa"@)) == Some(ChartsHost::Faa),
        ChartsHost::spec_try_from(Some("FAA"@)) == Some(ChartsHost::Faa),
        ChartsHost::spec_try_from(Some("Mirror"@)) == Some(ChartsHost::Mirror),
        ChartsHost::spec_try_from(Some("mirror"@)) == Some(ChartsHost::Mirror),
        ChartsHost::spec_try_from(Some("MIRROR"@)) == Some(ChartsHost::Mirror),
{
    reveal_strlit("Faa");
    reveal_strlit("faa");
    reveal_strlit("FAA");
    reveal_strlit("Mirror");
    reveal_strlit("mirror");
    reveal_strlit("MIRROR");
    assert(ascii_upper("Faa"@) =~= "FAA"@);
    assert(ascii_upper("faa"@) =~= "FAA"@);
    assert(ascii_upper("FAA"@) =~= "FAA"@);
    assert(ascii_upper("Mirror"@) =~= "MIRROR"@);
    assert(ascii_upper("mirror"@) =~= "MIRROR"@);
    assert(ascii_upper("MIRROR"@) =~= "MIRROR"@);
}

} // verus!
