use vstd::prelude::*;

use crate::response_dtos::{
    ChartDto, ChartGroup, ChartView, GroupedChartsDto, GroupedView, ResponseDto, ResponseView,
    chart_views, clone_charts, section_of,
};

verus! {

/// The charts whose group is one of `types`, in their order.
pub open spec fn filter_types(charts: Seq<ChartView>, types: Seq<ChartGroup>) -> Seq<ChartView>
    decreases charts.len(),
{
    if charts.len() == 0 {
        Seq::empty()
    } else {
        let rest = filter_types(charts.drop_last(), types);
        if types.contains(charts.last().chart_group) {
            rest.push(charts.last())
        } else {
            rest
        }
    }
}

/// The charts sorted into sections, each section in the charts' order.
pub open spec fn group_all(charts: Seq<ChartView>) -> GroupedView
    decreases charts.len(),
{
    if charts.len() == 0 {
        GroupedView::empty()
    } else {
        group_all(charts.drop_last()).add(charts.last())
    }
}

/// The answer for the charts of the given types: grouped into sections when
/// `return_groups` holds, a flat list otherwise.
pub open spec fn spec_filter_group_by_types(
    charts: Seq<ChartView>,
    types: Seq<ChartGroup>,
    return_groups: bool,
) -> ResponseView {
    if return_groups {
        ResponseView::GroupedCharts(group_all(filter_types(charts, types)))
    } else {
        ResponseView::Charts(filter_types(charts, types))
    }
}

/// The chart groups that a grouping code from 1 to 7 selects.
pub open spec fn spec_group_types(group: i32) -> Seq<ChartGroup> {
    if group == 1 {
        seq![
            ChartGroup::Apd,
            ChartGroup::General,
            ChartGroup::Departures,
            ChartGroup::Arrivals,
            ChartGroup::Approaches,
        ]
    } else if group == 2 {
        seq![ChartGroup::Apd]
    } else if group == 3 {
        seq![ChartGroup::Apd, ChartGroup::General]
    } else if group == 4 {
        seq![ChartGroup::Departures]
    } else if group == 5 {
        seq![ChartGroup::Arrivals]
    } else if group == 6 {
        seq![ChartGroup::Approaches]
    } else {
        seq![ChartGroup::Departures, ChartGroup::Arrivals, ChartGroup::Approaches]
    }
}

/// Whether a grouping code answers with sections rather than a flat list.
pub open spec fn spec_groups_returned(group: i32) -> bool {
    group == 1 || group == 7
}

/// The answer for the charts of an airport under an optional grouping code:
/// every chart without a code, the selected charts for codes 1 to 7, and no
/// chart for any other code.
pub open spec fn spec_apply_group_param(charts: Seq<ChartView>, group: Option<i32>) -> ResponseView {
    match group {
        None => ResponseView::Charts(charts),
        Some(i) => if 1 <= i <= 7 {
            spec_filter_group_by_types(charts, spec_group_types(i), spec_groups_returned(i))
        } else {
            ResponseView::Charts(Seq::empty())
        },
    }
}

/// The chart groups that a grouping code from 1 to 7 selects.
pub fn group_types(group: i32) -> (types: Vec<ChartGroup>)
    requires
        1 <= group <= 7,
    ensures
        types@ == spec_group_types(group),
{
    let types = if group == 1 {
        vec![
            ChartGroup::Apd,
            ChartGroup::General,
            ChartGroup::Departures,
            ChartGroup::Arrivals,
            ChartGroup::Approaches,
        ]
    } else if group == 2 {
        vec![ChartGroup::Apd]
    } else if group == 3 {
        vec![ChartGroup::Apd, ChartGroup::General]
    } else if group == 4 {
        vec![ChartGroup::Departures]
    } else if group == 5 {
        vec![ChartGroup::Arrivals]
    } else if group == 6 {
        vec![ChartGroup::Approaches]
    } else {
        vec![ChartGroup::Departures, ChartGroup::Arrivals, ChartGroup::Approaches]
    };
    assert(types@ =~= spec_group_types(group));
    types
}

/// Whether `g` is one of `types`.
pub fn types_contain(types: &[ChartGroup], g: ChartGroup) -> (r: bool)
    ensures
        r == types@.contains(g),
{
    let mut i: usize = 0;
    while i < types.len()
        invariant
            i <= types@.len(),
            forall|j: int| 0 <= j < i ==> types@[j] != g,
        decreases types@.len() - i,
    {
        if types[i] == g {
            assert(types@[i as int] == g);
            return true;
        }
        i = i + 1;
    }
    false
}

/// The charts whose group is one of `types`: sorted into sections when
/// `return_groups` holds, a flat list in their order otherwise.
pub fn filter_group_by_types(charts: &[ChartDto], types: &[ChartGroup], return_groups: bool) -> (r:
    ResponseDto)
    ensures
        r@ == spec_filter_group_by_types(chart_views(charts@), types@, return_groups),
{
    let ghost all = chart_views(charts@);
    if return_groups {
        let mut grouped = GroupedChartsDto::new();
        let mut i: usize = 0;
        while i < charts.len()
            invariant
                all == chart_views(charts@),
                i <= charts@.len(),
                grouped@ == group_all(filter_types(all.take(i as int), types@)),
            decreases charts@.len() - i,
        {
            assert(all.take(i + 1).drop_last() =~= all.take(i as int));
            if types_contain(types, charts[i].chart_group) {
                grouped.add_chart(charts[i].clone());
                assert(filter_types(all.take(i + 1), types@).drop_last() =~= filter_types(
                    all.take(i as int),
                    types@,
                ));
            }
            i = i + 1;
        }
        assert(all.take(charts@.len() as int) =~= all);
        ResponseDto::GroupedCharts(grouped)
    } else {
        let mut kept: Vec<ChartDto> = Vec::new();
        let mut i: usize = 0;
        while i < charts.len()
            invariant
                all == chart_views(charts@),
                i <= charts@.len(),
                chart_views(kept@) == filter_types(all.take(i as int), types@),
            decreases charts@.len() - i,
        {
            assert(all.take(i + 1).drop_last() =~= all.take(i as int));
            if types_contain(types, charts[i].chart_group) {
                let ghost before = kept@;
                kept.push(charts[i].clone());
                assert(chart_views(kept@) =~= chart_views(before).push(all[i as int]));
            }
            i = i + 1;
        }
        assert(all.take(charts@.len() as int) =~= all);
        ResponseDto::Charts(kept)
    }
}

/// The answer for the charts of an airport under an optional grouping code:
/// every chart without a code; for code 1 every chart and for code 7 the
/// departures, arrivals and approaches, both sorted into sections; for codes
/// 2 to 6 the diagrams, the general charts with the diagrams, the
/// departures, the arrivals or the approaches as a flat list; no chart for
/// any other code.
pub fn apply_group_param(charts: &[ChartDto], group: Option<i32>) -> (r: ResponseDto)
    ensures
        r@ == spec_apply_group_param(chart_views(charts@), group),
{
    match group {
        None => ResponseDto::Charts(clone_charts(charts)),
        Some(i) => {
            if 1 <= i && i <= 7 {
                let types = group_types(i);
                filter_group_by_types(charts, types.as_slice(), i == 1 || i == 7)
            } else {
                let r = ResponseDto::Charts(Vec::new());
                assert(chart_views(Seq::<ChartDto>::empty()) =~= Seq::empty());
                r
            }
        },
    }
}

/// Filtering by `t` and then by `u` keeps what filtering by `v` keeps, when
/// the groups in `v` are exactly those in both `t` and `u`.
pub proof fn lemma_filter_twice(
    charts: Seq<ChartView>,
    t: Seq<ChartGroup>,
    u: Seq<ChartGroup>,
    v: Seq<ChartGroup>,
)
    requires
        forall|g: ChartGroup| (t.contains(g) && u.contains(g)) == v.contains(g),
    ensures
        filter_types(filter_types(charts, t), u) == filter_types(charts, v),
    decreases charts.len(),
{
    if charts.len() > 0 {
        lemma_filter_twice(charts.drop_last(), t, u, v);
        let c = charts.last();
        let rest = filter_types(charts.drop_last(), t);
        if t.contains(c.chart_group) {
            assert(rest.push(c).drop_last() =~= rest);
        }
    }
}

/// Filtering a second time by the same groups changes nothing.
pub proof fn lemma_filter_idempotent(charts: Seq<ChartView>, types: Seq<ChartGroup>)
    ensures
        filter_types(filter_types(charts, types), types) == filter_types(charts, types),
{
    lemma_filter_twice(charts, types, types, types);
}

/// Filtering by groups that include every group of the charts keeps every
/// chart.
pub proof fn lemma_filter_keeps_all(charts: Seq<ChartView>, types: Seq<ChartGroup>)
    requires
        forall|i: int| 0 <= i < charts.len() ==> types.contains(#[trigger] charts[i].chart_group),
    ensures
        filter_types(charts, types) == charts,
    decreases charts.len(),
{
    if charts.len() > 0 {
        assert(types.contains(charts[charts.len() - 1].chart_group));
        assert forall|i: int| 0 <= i < charts.drop_last().len() implies types.contains(
            #[trigger] charts.drop_last()[i].chart_group,
        ) by {
            assert(charts.drop_last()[i] == charts[i]);
        }
        lemma_filter_keeps_all(charts.drop_last(), types);
        assert(charts.drop_last().push(charts.last()) =~= charts);
    }
}

/// The groups of each section of a grouped answer.
pub open spec fn section_types(section: int) -> Seq<ChartGroup> {
    if section == 0 {
        seq![ChartGroup::Apd, ChartGroup::General]
    } else if section == 1 {
        seq![ChartGroup::Departures]
    } else if section == 2 {
        seq![ChartGroup::Arrivals]
    } else {
        seq![ChartGroup::Approaches]
    }
}

/// A group belongs to the groups of a section exactly when charts of that
/// group go to the section.
pub proof fn lemma_section_types(section: int, g: ChartGroup)
    requires
        0 <= section < 4,
    ensures
        section_types(section).contains(g) == (section_of(g) == section),
{
    let t = section_types(section);
    if section_of(g) == section {
        if g == ChartGroup::General {
            assert(t[1] == g);
        } else {
            assert(t[0] == g);
        }
    } else {
        assert forall|i: int| 0 <= i < t.len() implies t[i] != g by {}
    }
}

/// Each section of a grouped answer holds exactly the charts of its groups,
/// in the charts' order: diagrams and general charts, departures, arrivals,
/// approaches.
pub proof fn lemma_group_sections(charts: Seq<ChartView>)
    ensures
        group_all(charts).general == filter_types(charts, section_types(0)),
        group_all(charts).dp == filter_types(charts, section_types(1)),
        group_all(charts).star == filter_types(charts, section_types(2)),
        group_all(charts).capp == filter_types(charts, section_types(3)),
    decreases charts.len(),
{
    if charts.len() > 0 {
        lemma_group_sections(charts.drop_last());
        let g = charts.last().chart_group;
        lemma_section_types(0, g);
        lemma_section_types(1, g);
        lemma_section_types(2, g);
        lemma_section_types(3, g);
    }
}

/// Grouping code 1 answers every chart, sorted into sections.
pub proof fn lemma_group_one_keeps_every_chart(charts: Seq<ChartView>)
    ensures
        spec_apply_group_param(charts, Some(1i32)) == ResponseView::GroupedCharts(group_all(charts)),
{
    let t = spec_group_types(1);
    assert forall|i: int| 0 <= i < charts.len() implies t.contains(#[trigger] charts[i].chart_group) by {
        let g = charts[i].chart_group;
        match g {
            ChartGroup::Apd => assert(t[0] == g),
            ChartGroup::General => assert(t[1] == g),
            ChartGroup::Departures => assert(t[2] == g),
            ChartGroup::Arrivals => assert(t[3] == g),
            ChartGroup::Approaches => assert(t[4] == g),
        }
    }
    lemma_filter_keeps_all(charts, t);
}

/// Grouping codes 4, 5 and 6 answer, as a flat list, the departures,
/// arrivals and approaches sections of what code 1 answers; code 2 and 3
/// answer the diagrams, and the diagrams with the general charts.
pub proof fn lemma_flat_codes_match_sections(charts: Seq<ChartView>)
    ensures
        spec_apply_group_param(charts, Some(4i32)) == ResponseView::Charts(group_all(charts).dp),
        spec_apply_group_param(charts, Some(5i32)) == ResponseView::Charts(group_all(charts).star),
        spec_apply_group_param(charts, Some(6i32)) == ResponseView::Charts(group_all(charts).capp),
        spec_apply_group_param(charts, Some(3i32)) == ResponseView::Charts(
            group_all(charts).general,
        ),
{
    lemma_group_sections(charts);
    assert(spec_group_types(4) =~= section_types(1));
    assert(spec_group_types(5) =~= section_types(2));
    assert(spec_group_types(6) =~= section_types(3));
    assert(spec_group_types(3) =~= section_types(0));
}

/// Grouping code 7 answers the departures, arrivals and approaches sections
/// of what code 1 answers, with an empty general section.
pub proof fn lemma_group_seven_is_procedures(charts: Seq<ChartView>)
    ensures
        spec_apply_group_param(charts, Some(7i32)) == ResponseView::GroupedCharts(
            GroupedView {
                general: Seq::empty(),
                dp: group_all(charts).dp,
                star: group_all(charts).star,
                capp: group_all(charts).capp,
            },
        ),
{
    let t7 = spec_group_types(7);
    let f = filter_types(charts, t7);
    lemma_group_sections(charts);
    lemma_group_sections(f);
    let none = Seq::<ChartGroup>::empty();
    assert forall|g: ChartGroup| (t7.contains(g) && section_types(0).contains(g))
        == none.contains(g) by {
        lemma_section_types(0, g);
        if t7.contains(g) {
            let i = choose|i: int| 0 <= i < t7.len() && t7[i] == g;
        }
    }
    lemma_filter_twice(charts, t7, section_types(0), none);
    lemma_filter_empty_types(charts);
    assert forall|g: ChartGroup| (t7.contains(g) && section_types(1).contains(g))
        == section_types(1).contains(g) by {
        lemma_section_types(1, g);
        if g == ChartGroup::Departures {
            assert(t7[0] == g);
        }
    }
    lemma_filter_twice(charts, t7, section_types(1), section_types(1));
    assert forall|g: ChartGroup| (t7.contains(g) && section_types(2).contains(g))
        == section_types(2).contains(g) by {
        lemma_section_types(2, g);
        if g == ChartGroup::Arrivals {
            assert(t7[1] == g);
        }
    }
    lemma_filter_twice(charts, t7, section_types(2), section_types(2));
    assert forall|g: ChartGroup| (t7.contains(g) && section_types(3).contains(g))
        == section_types(3).contains(g) by {
        lemma_section_types(3, g);
        if g == ChartGroup::Approaches {
            assert(t7[2] == g);
        }
    }
    lemma_filter_twice(charts, t7, section_types(3), section_types(3));
}

/// Filtering by no groups keeps no chart.
proof fn lemma_filter_empty_types(charts: Seq<ChartView>)
    ensures
        filter_types(charts, Seq::empty()) == Seq::<ChartView>::empty(),
    decreases charts.len(),
{
    if charts.len() > 0 {
        lemma_filter_empty_types(charts.drop_last());
    }
}

/// Filtering two lists one after the other gives the two filtered lists one
/// after the other.
pub proof fn lemma_filter_concat(a: Seq<ChartView>, b: Seq<ChartView>, types: Seq<ChartGroup>)
    ensures
        filter_types(a + b, types) == filter_types(a, types) + filter_types(b, types),
    decreases b.len(),
{
    if b.len() == 0 {
        assert(a + b =~= a);
        assert(filter_types(a, types) + filter_types(b, types) =~= filter_types(a, types));
    } else {
        lemma_filter_concat(a, b.drop_last(), types);
        assert((a + b).drop_last() =~= a + b.drop_last());
        assert((a + b).last() == b.last());
        let fa = filter_types(a, types);
        let fb = filter_types(b.drop_last(), types);
        assert((fa + fb).push(b.last()) =~= fa + fb.push(b.last()));
    }
}


/// Filtering keeps exactly the charts whose group is one of the types.
pub proof fn lemma_filter_members(charts: Seq<ChartView>, types: Seq<ChartGroup>, x: ChartView)
    ensures
        filter_types(charts, types).contains(x) <==> charts.contains(x) && types.contains(
            x.chart_group,
        ),
    decreases charts.len(),
{
    if charts.len() > 0 {
        let prev = charts.drop_last();
        lemma_filter_members(prev, types, x);
        let r = filter_types(prev, types);
        let f = filter_types(charts, types);
        if charts.contains(x) && types.contains(x.chart_group) {
            let q = choose|q: int| 0 <= q < charts.len() && charts[q] == x;
            if q < prev.len() {
                assert(prev[q] == x);
                let w = choose|w: int| 0 <= w < r.len() && r[w] == x;
                if types.contains(charts.last().chart_group) {
                    assert(r.push(charts.last())[w] == x);
                }
            } else {
                assert(r.push(charts.last())[r.len() as int] == x);
            }
        }
        if f.contains(x) {
            let w = choose|w: int| 0 <= w < f.len() && f[w] == x;
            if w < r.len() {
                assert(r[w] == x);
                let q = choose|q: int| 0 <= q < prev.len() && prev[q] == x;
                assert(charts[q] == x);
            } else {
                assert(charts[charts.len() - 1] == x);
            }
        }
    }
}

} // verus!
