use vstd::prelude::*;

verus! {

/// The kind of procedure a chart belongs to.
#[derive(Debug, Clone, Copy, PartialEq, Eq, Structural)]
pub enum ChartGroup {
    /// Airport diagrams.
    Apd,
    /// Minimums, hot spots, LAHSO and other airport information.
    General,
    /// Departure procedures.
    Departures,
    /// Standard terminal arrivals.
    Arrivals,
    /// Instrument approach procedures.
    Approaches,
}

/// One chart of the index, with the place it belongs to.
pub struct ChartDto {
    pub state: String,
    pub state_full: String,
    pub city: String,
    pub volume: String,
    pub airport_name: String,
    pub military: String,
    pub faa_ident: String,
    pub icao_ident: String,
    pub chart_seq: String,
    pub chart_code: String,
    pub chart_name: String,
    pub pdf_name: String,
    pub pdf_path: String,
    pub chart_group: ChartGroup,
}

/// The model of a chart: every text field by its characters.
#[verifier::ext_equal]
pub struct ChartView {
    pub state: Seq<char>,
    pub state_full: Seq<char>,
    pub city: Seq<char>,
    pub volume: Seq<char>,
    pub airport_name: Seq<char>,
    pub military: Seq<char>,
    pub faa_ident: Seq<char>,
    pub icao_ident: Seq<char>,
    pub chart_seq: Seq<char>,
    pub chart_code: Seq<char>,
    pub chart_name: Seq<char>,
    pub pdf_name: Seq<char>,
    pub pdf_path: Seq<char>,
    pub chart_group: ChartGroup,
}

impl View for ChartDto {
    type V = ChartView;

    open spec fn view(&self) -> ChartView {
        ChartView {
            state: self.state@,
            state_full: self.state_full@,
            city: self.city@,
            volume: self.volume@,
            airport_name: self.airport_name@,
            military: self.military@,
            faa_ident: self.faa_ident@,
            icao_ident: self.icao_ident@,
            chart_seq: self.chart_seq@,
            chart_code: self.chart_code@,
            chart_name: self.chart_name@,
            pdf_name: self.pdf_name@,
            pdf_path: self.pdf_path@,
            chart_group: self.chart_group,
        }
    }
}

/// The models of a list of charts.
pub open spec fn chart_views(charts: Seq<ChartDto>) -> Seq<ChartView> {
    charts.map_values(|c: ChartDto| c@)
}

impl Clone for ChartDto {
    fn clone(&self) -> (r: Self)
        ensures
            r == *self,
    {
        ChartDto {
            state: self.state.clone(),
            state_full: self.state_full.clone(),
            city: self.city.clone(),
            volume: self.volume.clone(),
            airport_name: self.airport_name.clone(),
            military: self.military.clone(),
            faa_ident: self.faa_ident.clone(),
            icao_ident: self.icao_ident.clone(),
            chart_seq: self.chart_seq.clone(),
            chart_code: self.chart_code.clone(),
            chart_name: self.chart_name.clone(),
            pdf_name: self.pdf_name.clone(),
            pdf_path: self.pdf_path.clone(),
            chart_group: self.chart_group,
        }
    }
}

/// A copy of a list of charts.
pub fn clone_charts(charts: &[ChartDto]) -> (r: Vec<ChartDto>)
    ensures
        r@ == charts@,
        chart_views(r@) == chart_views(charts@),
{
    let mut r: Vec<ChartDto> = Vec::new();
    let mut i: usize = 0;
    while i < charts.len()
        invariant
            i <= charts@.len(),
            r@ == charts@.take(i as int),
        decreases charts@.len() - i,
    {
        r.push(charts[i].clone());
        i = i + 1;
        assert(r@ =~= charts@.take(i as int));
    }
    assert(charts@.take(charts@.len() as int) =~= charts@);
    r
}

/// Charts sorted into the four sections of a grouped answer.
pub struct GroupedChartsDto {
    /// Airport diagrams and general airport information.
    pub general: Vec<ChartDto>,
    /// Departure procedures.
    pub dp: Vec<ChartDto>,
    /// Standard terminal arrivals.
    pub star: Vec<ChartDto>,
    /// Instrument approach procedures.
    pub capp: Vec<ChartDto>,
}

/// The sections of a grouped answer, as sequences.
pub struct GroupedView {
    pub general: Seq<ChartView>,
    pub dp: Seq<ChartView>,
    pub star: Seq<ChartView>,
    pub capp: Seq<ChartView>,
}

/// Which section of a grouped answer a chart of the given group goes to:
/// 0 general, 1 departures, 2 arrivals, 3 approaches.
pub open spec fn section_of(g: ChartGroup) -> int {
    match g {
        ChartGroup::Apd => 0,
        ChartGroup::General => 0,
        ChartGroup::Departures => 1,
        ChartGroup::Arrivals => 2,
        ChartGroup::Approaches => 3,
    }
}

impl GroupedView {
    /// The grouped answer with no charts.
    pub open spec fn empty() -> GroupedView {
        GroupedView {
            general: Seq::empty(),
            dp: Seq::empty(),
            star: Seq::empty(),
            capp: Seq::empty(),
        }
    }

    /// The grouped answer after one more chart is added to its section.
    pub open spec fn add(self, c: ChartView) -> GroupedView {
        let s = section_of(c.chart_group);
        GroupedView {
            general: if s == 0 { self.general.push(c) } else { self.general },
            dp: if s == 1 { self.dp.push(c) } else { self.dp },
            star: if s == 2 { self.star.push(c) } else { self.star },
            capp: if s == 3 { self.capp.push(c) } else { self.capp },
        }
    }
}

impl View for GroupedChartsDto {
    type V = GroupedView;

    open spec fn view(&self) -> GroupedView {
        GroupedView {
            general: chart_views(self.general@),
            dp: chart_views(self.dp@),
            star: chart_views(self.star@),
            capp: chart_views(self.capp@),
        }
    }
}

impl GroupedChartsDto {
    /// A grouped answer with no charts.
    pub fn new() -> (r: Self)
        ensures
            r@ == GroupedView::empty(),
    {
        let r = GroupedChartsDto {
            general: Vec::new(),
            dp: Vec::new(),
            star: Vec::new(),
            capp: Vec::new(),
        };
        assert(chart_views(r.general@) =~= Seq::empty());
        assert(chart_views(r.dp@) =~= Seq::empty());
        assert(chart_views(r.star@) =~= Seq::empty());
        assert(chart_views(r.capp@) =~= Seq::empty());
        r
    }

    /// Adds a chart at the end of the section its group belongs to.
    pub fn add_chart(&mut self, chart: ChartDto)
        ensures
            final(self)@ == old(self)@.add(chart@),
    {
        let ghost c = chart@;
        match chart.chart_group {
            ChartGroup::Apd | ChartGroup::General => {
                self.general.push(chart);
                assert(chart_views(self.general@) =~= chart_views(old(self).general@).push(c));
            },
            ChartGroup::Departures => {
                self.dp.push(chart);
                assert(chart_views(self.dp@) =~= chart_views(old(self).dp@).push(c));
            },
            ChartGroup::Arrivals => {
                self.star.push(chart);
                assert(chart_views(self.star@) =~= chart_views(old(self).star@).push(c));
            },
            ChartGroup::Approaches => {
                self.capp.push(chart);
                assert(chart_views(self.capp@) =~= chart_views(old(self).capp@).push(c));
            },
        }
    }
}

/// The charts answered for one airport: a flat list, or sorted into sections.
pub enum ResponseDto {
    Charts(Vec<ChartDto>),
    GroupedCharts(GroupedChartsDto),
}

/// The model of an answer for one airport.
pub enum ResponseView {
    Charts(Seq<ChartView>),
    GroupedCharts(GroupedView),
}

impl View for ResponseDto {
    type V = ResponseView;

    open spec fn view(&self) -> ResponseView {
        match self {
            ResponseDto::Charts(v) => ResponseView::Charts(chart_views(v@)),
            ResponseDto::GroupedCharts(g) => ResponseView::GroupedCharts(g@),
        }
    }
}

} // verus!
