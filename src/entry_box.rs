//! The entries of the result list, what confirming one does, and the
//! ordering of a result set into the list.

use vstd::prelude::*;
use vstd::string::StringExecFns;
use crate::exec_line::{strip_field_codes, strip_field_codes_spec};
use crate::results::{AppDescriptor, SprintResults};
use crate::sprint_config::strings_view;
use crate::text::{lower_of, lowercase};

verus! {

/// What an entry stands for.
#[derive(Debug)]
pub enum EntryBoxValue {
    /// An application, by its position in the application index.
    Desktop(usize),
    /// The value of the query as arithmetic, in decimal.
    Math(String),
    /// Query and URL of a web search.
    WebSearch(String, String),
    /// Rule name, query and URL of a web-prefix rule.
    WebPrefix(String, String, String),
}

/// An entry's value with its text seen as character sequences.
pub enum EntryView {
    Desktop(nat),
    Math(Seq<char>),
    WebSearch(Seq<char>, Seq<char>),
    WebPrefix(Seq<char>, Seq<char>, Seq<char>),
}

pub open spec fn value_view(v: EntryBoxValue) -> EntryView {
    match v {
        EntryBoxValue::Desktop(i) => EntryView::Desktop(i as nat),
        EntryBoxValue::Math(t) => EntryView::Math(t@),
        EntryBoxValue::WebSearch(q, u) => EntryView::WebSearch(q@, u@),
        EntryBoxValue::WebPrefix(n, q, u) => EntryView::WebPrefix(n@, q@, u@),
    }
}

/// The text an entry shows.
pub open spec fn label_of(v: EntryView, apps: Seq<AppDescriptor>) -> Seq<char> {
    match v {
        EntryView::Desktop(i) => apps[i as int].name@,
        EntryView::Math(t) => "= "@ + t,
        EntryView::WebSearch(q, _) => "Search \""@ + q + "\" on the web..."@,
        EntryView::WebPrefix(n, q, _) => "Search \""@ + q + "\" on \""@ + n + "\"..."@,
    }
}

/// What confirming an entry asks of the system.
#[derive(Debug)]
pub enum Action {
    /// Start this command line, detached.
    Launch(String),
    /// Open this URL in the web browser.
    OpenUrl(String),
    Nothing,
}

/// The action of confirming an entry.
pub open spec fn action_of(v: EntryView, apps: Seq<AppDescriptor>, a: Action) -> bool {
    match v {
        EntryView::Desktop(i) => match apps[i as int].exec_line {
            Some(e) => a matches Action::Launch(c) && c@ == strip_field_codes_spec(e@),
            None => a is Nothing,
        },
        EntryView::Math(_) => a is Nothing,
        EntryView::WebSearch(_, u) => a matches Action::OpenUrl(x) && x@ == u,
        EntryView::WebPrefix(_, _, u) => a matches Action::OpenUrl(x) && x@ == u,
    }
}

/// One row of the result list.
#[derive(Debug)]
pub struct Entrybox {
    pub value: EntryBoxValue,
    /// Row number, counted from the top of the list.
    pub slot: usize,
    pub label: String,
}

/// Left edge of every row.
pub const ROW_LEFT: u32 = 16;

/// Top of the first row: rows start below the input band.
pub const ROWS_TOP: u32 = 49;

/// Height of one row.
pub const ROW_HEIGHT: u32 = 30;

/// Most applications the list shows.
pub const ELEMENT_LIMIT: usize = 50;

impl Entrybox {
    /// The entry in row `slot` for `value`, with its label.
    pub fn new(value: EntryBoxValue, slot: usize, apps: &Vec<AppDescriptor>) -> (e: Self)
        requires
            value matches EntryBoxValue::Desktop(i) ==> i < apps@.len(),
        ensures
            e.value == value,
            e.slot == slot,
            e.label@ == label_of(value_view(value), apps@),
    {
        let label = match &value {
            EntryBoxValue::Desktop(i) => apps[*i].name.clone(),
            EntryBoxValue::Math(math) => {
                let mut r = String::from_str("= ");
                r.append(math.as_str());
                r
            },
            EntryBoxValue::WebSearch(query, _) => {
                let mut r = String::from_str("Search \"");
                r.append(query.as_str());
                r.append("\" on the web...");
                r
            },
            EntryBoxValue::WebPrefix(name, query, _) => {
                let mut r = String::from_str("Search \"");
                r.append(query.as_str());
                r.append("\" on \"");
                r.append(name.as_str());
                r.append("\"...");
                r
            },
        };
        Self { value, slot, label }
    }

    /// Where the row's label starts, while that fits in 32 bits.
    pub fn position(&self) -> (p: Option<(u32, u32)>)
        ensures
            ROWS_TOP + ROW_HEIGHT * self.slot <= u32::MAX ==> p == Some(
                (ROW_LEFT, (ROWS_TOP + ROW_HEIGHT * self.slot) as u32),
            ),
            ROWS_TOP + ROW_HEIGHT * self.slot > u32::MAX ==> p.is_none(),
    {
        if self.slot > ((u32::MAX - ROWS_TOP) / ROW_HEIGHT) as usize {
            None
        } else {
            Some((ROW_LEFT, ROWS_TOP + ROW_HEIGHT * (self.slot as u32)))
        }
    }

    /// What confirming this entry asks for.
    pub fn select(&self, apps: &Vec<AppDescriptor>) -> (a: Action)
        requires
            self.value matches EntryBoxValue::Desktop(i) ==> i < apps@.len(),
        ensures
            action_of(value_view(self.value), apps@, a),
    {
        match &self.value {
            EntryBoxValue::Desktop(i) => match &apps[*i].exec_line {
                Some(e) => Action::Launch(strip_field_codes(e.as_str())),
                None => Action::Nothing,
            },
            EntryBoxValue::Math(_) => Action::Nothing,
            EntryBoxValue::WebSearch(_, url) => Action::OpenUrl(url.clone()),
            EntryBoxValue::WebPrefix(_, _, url) => Action::OpenUrl(url.clone()),
        }
    }
}

/// The entries a lane contributes, `lane` being the folded lane name; an
/// unknown name contributes none.
pub open spec fn lane_entries(rs: SprintResults, lane: Seq<char>) -> Seq<EntryView> {
    if lane == "prefixes"@ {
        match rs.prefix_results {
            Some(t) => seq![EntryView::WebPrefix(t.0@, t.1@, t.2@)],
            None => seq![],
        }
    } else if lane == "math"@ {
        match rs.math_result {
            Some(m) => seq![EntryView::Math(m@)],
            None => seq![],
        }
    } else if lane == "desktop"@ {
        let d = rs.desktop_results@;
        let n = if d.len() < ELEMENT_LIMIT {
            d.len() as int
        } else {
            ELEMENT_LIMIT as int
        };
        d.take(n).map_values(|i: usize| EntryView::Desktop(i as nat))
    } else if lane == "search"@ {
        seq![EntryView::WebSearch(rs.web_result.0@, rs.web_result.1@)]
    } else {
        seq![]
    }
}

/// The list for a lane order given by folded lane names: each lane's
/// entries in turn.
pub open spec fn ordered_entries(rs: SprintResults, lanes: Seq<Seq<char>>) -> Seq<EntryView>
    decreases lanes.len(),
{
    if lanes.len() == 0 {
        seq![]
    } else {
        ordered_entries(rs, lanes.drop_last()) + lane_entries(rs, lanes.last())
    }
}

/// The configured lane names, case-folded with `str::to_lowercase`.
pub open spec fn folded_lanes(order: Seq<String>) -> Seq<Seq<char>> {
    order.map_values(|s: String| lower_of(s@))
}

/// The list depends on the lanes' contents alone.
pub proof fn lemma_ordered_entries_same_lanes(a: SprintResults, b: SprintResults, order: Seq<Seq<char>>)
    requires
        crate::results::option_rule_view(a.prefix_results) == crate::results::option_rule_view(
            b.prefix_results,
        ),
        crate::results::option_string_view(a.math_result)
            == crate::results::option_string_view(b.math_result),
        a.desktop_results@ == b.desktop_results@,
        a.web_result.0@ == b.web_result.0@,
        a.web_result.1@ == b.web_result.1@,
    ensures
        ordered_entries(a, order) == ordered_entries(b, order),
    decreases order.len(),
{
    if order.len() > 0 {
        lemma_ordered_entries_same_lanes(a, b, order.drop_last());
        let lane = order.last();
        assert(lane_entries(a, lane) == lane_entries(b, lane));
    }
}

/// `r` holds, row by row, the entries `views` with their labels.
pub open spec fn entries_match(r: Seq<Entrybox>, views: Seq<EntryView>, apps: Seq<AppDescriptor>) -> bool {
    &&& r.len() == views.len()
    &&& forall|k: int|
        0 <= k < r.len() ==> value_view(#[trigger] r[k].value) == views[k] && r[k].slot == k
            && r[k].label@ == label_of(views[k], apps)
}

/// Every application position in the result set is inside the index.
pub open spec fn results_in_index(rs: SprintResults) -> bool {
    forall|k: int|
        0 <= k < rs.desktop_results@.len() ==> #[trigger] rs.desktop_results@[k] < rs.apps().len()
}

fn push_entry(
    r: &mut Vec<Entrybox>,
    value: EntryBoxValue,
    apps: &Vec<AppDescriptor>,
    Ghost(views): Ghost<Seq<EntryView>>,
)
    requires
        entries_match(old(r)@, views, apps@),
        value matches EntryBoxValue::Desktop(i) ==> i < apps@.len(),
    ensures
        entries_match(final(r)@, views.push(value_view(value)), apps@),
{
    let slot = r.len();
    let ghost v = value_view(value);
    let e = Entrybox::new(value, slot, apps);
    r.push(e);
    assert forall|k: int| 0 <= k < r@.len() implies value_view(#[trigger] r@[k].value) == views.push(v)[k]
        && r@[k].slot == k && r@[k].label@ == label_of(views.push(v)[k], apps@) by {}
}

/// Lays the result set out as the list, lane by lane, `lanes` holding folded
/// lane names; unknown names are skipped.
pub fn order_folded(rs: &SprintResults, lanes: &Vec<String>) -> (r: Vec<Entrybox>)
    requires
        results_in_index(*rs),
    ensures
        entries_match(r@, ordered_entries(*rs, strings_view(lanes@)), rs.apps()),
{
    let ghost sv = strings_view(lanes@);
    let prefixes = String::from_str("prefixes");
    let math = String::from_str("math");
    let desktop = String::from_str("desktop");
    let search = String::from_str("search");
    let mut r: Vec<Entrybox> = Vec::new();
    let mut j: usize = 0;
    assert(sv.take(0) =~= Seq::<Seq<char>>::empty());
    while j < lanes.len()
        invariant
            results_in_index(*rs),
            sv == strings_view(lanes@),
            prefixes@ == "prefixes"@,
            math@ == "math"@,
            desktop@ == "desktop"@,
            search@ == "search"@,
            j <= lanes@.len(),
            entries_match(r@, ordered_entries(*rs, sv.take(j as int)), rs.apps()),
        decreases lanes@.len() - j,
    {
        let lane = &lanes[j];
        let ghost before = ordered_entries(*rs, sv.take(j as int));
        assert(sv.take(j + 1).drop_last() =~= sv.take(j as int));
        assert(sv.take(j + 1).last() == lanes@[j as int]@);
        let ghost want = lane_entries(*rs, lane@);
        if *lane == prefixes {
            if let Some(prefix) = &rs.prefix_results {
                push_entry(
                    &mut r,
                    EntryBoxValue::WebPrefix(prefix.0.clone(), prefix.1.clone(), prefix.2.clone()),
                    &rs.desktop_file_cache,
                    Ghost(before),
                );
                assert(before.push(want[0]) =~= before + want);
            } else {
                assert(before + want =~= before);
            }
        } else if *lane == math {
            if let Some(m) = &rs.math_result {
                push_entry(&mut r, EntryBoxValue::Math(m.clone()), &rs.desktop_file_cache, Ghost(before));
                assert(before.push(want[0]) =~= before + want);
            } else {
                assert(before + want =~= before);
            }
        } else if *lane == desktop {
            let d = &rs.desktop_results;
            let mut count: usize = 0;
            while count < d.len() && count < ELEMENT_LIMIT
                invariant
                    results_in_index(*rs),
                    d == rs.desktop_results,
                    count <= d@.len(),
                    count <= ELEMENT_LIMIT,
                    entries_match(
                        r@,
                        before + d@.take(count as int).map_values(
                            |i: usize| EntryView::Desktop(i as nat),
                        ),
                        rs.apps(),
                    ),
                decreases d@.len() - count,
            {
                let ghost cur = before + d@.take(count as int).map_values(
                    |i: usize| EntryView::Desktop(i as nat),
                );
                push_entry(&mut r, EntryBoxValue::Desktop(d[count]), &rs.desktop_file_cache, Ghost(cur));
                count = count + 1;
                assert(cur.push(EntryView::Desktop(d@[count - 1] as nat)) =~= before + d@.take(
                    count as int,
                ).map_values(|i: usize| EntryView::Desktop(i as nat)));
            }
            assert(lane@ != "prefixes"@ && lane@ != "math"@ && lane@ == "desktop"@);
            assert(count == if d@.len() < ELEMENT_LIMIT {
                d@.len() as int
            } else {
                ELEMENT_LIMIT as int
            });
            assert(d@.take(count as int).map_values(|i: usize| EntryView::Desktop(i as nat)) =~= want);
        } else if *lane == search {
            push_entry(
                &mut r,
                EntryBoxValue::WebSearch(rs.web_result.0.clone(), rs.web_result.1.clone()),
                &rs.desktop_file_cache,
                Ghost(before),
            );
            assert(before.push(want[0]) =~= before + want);
        } else {
            assert(before + want =~= before);
        }
        j = j + 1;
    }
    assert(sv.take(lanes@.len() as int) =~= sv);
    r
}

/// Lays the result set out as the list, lane by lane in the configured
/// order; lane names are compared case-insensitively, unknown ones skipped.
pub fn order_results(rs: &SprintResults, order: &Vec<String>) -> (r: Vec<Entrybox>)
    requires
        results_in_index(*rs),
    ensures
        entries_match(r@, ordered_entries(*rs, folded_lanes(order@)), rs.apps()),
{
    let mut lanes: Vec<String> = Vec::new();
    let mut j: usize = 0;
    while j < order.len()
        invariant
            j <= order@.len(),
            lanes@.len() == j,
            forall|k: int| 0 <= k < j ==> #[trigger] lanes@[k]@ == lower_of(order@[k]@),
        decreases order@.len() - j,
    {
        lanes.push(lowercase(order[j].as_str()));
        j = j + 1;
    }
    assert(strings_view(lanes@) =~= folded_lanes(order@));
    order_folded(rs, &lanes)
}

} // verus!
