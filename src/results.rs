//! Query resolution: the four lanes a query is read in (a web-prefix rule,
//! an arithmetic expression, installed applications, a web search).

use vstd::prelude::*;
use crate::sprint_config::{SprintConfig, WebPrefix, rule_view};
use crate::text::{
    chars_le,
    chars_of,
    contains,
    contains_chars,
    fill_template,
    fill_template_chars,
    lemma_chars_le_total,
    lemma_chars_le_transitive,
    lower_of,
    lowercase,
    plus_for_spaces,
    spaces_to_plus,
    starts_with,
    str_le,
    string_of,
    trim,
    trim_chars,
};

verus! {

/// An installed application, with its display name already resolved for the
/// user's locales.
#[derive(Debug)]
pub struct AppDescriptor {
    pub name: String,
    /// Command template; may carry `%`-prefixed field codes.
    pub exec_line: Option<String>,
    /// Hidden from launchers.
    pub no_display: bool,
    /// Desktops the application is limited to.
    pub only_show_in: Option<Vec<String>>,
    /// Desktops the application is kept off.
    pub not_show_in: Option<Vec<String>>,
}

/// Some name of `list` is one of the `current` desktops.
pub open spec fn on_listed_desktop(list: Seq<String>, current: Seq<String>) -> bool {
    exists|i: int, j: int|
        0 <= i < list.len() && 0 <= j < current.len() && #[trigger] list[i]@ == #[trigger] current[j]@
}

/// The allow and deny lists admit the application on the current desktops
/// (with no known desktop, every application is admitted).
pub open spec fn shown_on_desktop(app: AppDescriptor, current: Option<Vec<String>>) -> bool {
    match current {
        None => true,
        Some(cur) => (match app.only_show_in {
            None => true,
            Some(l) => on_listed_desktop(l@, cur@),
        }) && (match app.not_show_in {
            None => true,
            Some(l) => !on_listed_desktop(l@, cur@),
        }),
    }
}

pub open spec fn app_visible(app: AppDescriptor, current: Option<Vec<String>>) -> bool {
    !app.no_display && shown_on_desktop(app, current)
}

/// Application `a` is listed before application `b`: by name in code-point
/// order, equal names by position in the index.
pub open spec fn app_before(apps: Seq<AppDescriptor>, a: int, b: int) -> bool {
    chars_le(apps[a].name@, apps[b].name@) && (chars_le(apps[b].name@, apps[a].name@) ==> a < b)
}

/// `r` lists, each once and in `app_before` order, exactly the applications
/// that are visible and whose case-folded name contains the case-folded query
/// (`folded[i]` being the case-folded name of `apps[i]`).
pub open spec fn app_lane_folded(
    apps: Seq<AppDescriptor>,
    folded: Seq<Seq<char>>,
    folded_query: Seq<char>,
    current: Option<Vec<String>>,
    r: Seq<usize>,
) -> bool {
    &&& forall|k: int|
        0 <= k < r.len() ==> #[trigger] r[k] < apps.len() && app_visible(apps[r[k] as int], current)
            && contains(folded[r[k] as int], folded_query)
    &&& forall|i: int|
        0 <= i < apps.len() && app_visible(apps[i], current) && contains(folded[i], folded_query)
            ==> r.contains(i as usize)
    &&& r.no_duplicates()
    &&& forall|k1: int, k2: int|
        0 <= k1 < k2 < r.len() ==> app_before(apps, #[trigger] r[k1] as int, #[trigger] r[k2] as int)
}

/// The application lane of `query`: names and query folded by `lower_of`.
pub open spec fn app_lane(
    apps: Seq<AppDescriptor>,
    query: Seq<char>,
    current: Option<Vec<String>>,
    r: Seq<usize>,
) -> bool {
    app_lane_folded(apps, apps.map_values(|a: AppDescriptor| lower_of(a.name@)), lower_of(query), current, r)
}

/// The rules whose trigger starts the query.
pub open spec fn triggered(input: Seq<char>, rules: Seq<WebPrefix>) -> Seq<WebPrefix> {
    rules.filter(|r: WebPrefix| r.1@.is_prefix_of(input))
}

/// What a triggered rule makes of the query: its name, the trimmed rest of
/// the query, and the URL with that rest (spaces as `+`) in the placeholder.
pub open spec fn expand_rule(input: Seq<char>, rule: WebPrefix) -> (Seq<char>, Seq<char>, Seq<char>) {
    let q = trim(input.skip(rule.1@.len() as int));
    (rule.0@, q, fill_template(rule.2@, plus_for_spaces(q)))
}

/// The prefix lane: the expansion of the one triggered rule, or nothing when
/// no rule or more than one is triggered.
pub open spec fn prefix_lane(input: Seq<char>, rules: Seq<WebPrefix>) -> Option<
    (Seq<char>, Seq<char>, Seq<char>),
> {
    if triggered(input, rules).len() == 1 {
        Some(expand_rule(input, triggered(input, rules)[0]))
    } else {
        None
    }
}

pub open spec fn option_rule_view(r: Option<WebPrefix>) -> Option<(Seq<char>, Seq<char>, Seq<char>)> {
    match r {
        Some(t) => Some(rule_view(t)),
        None => None,
    }
}

pub open spec fn option_string_view(r: Option<String>) -> Option<Seq<char>> {
    match r {
        Some(t) => Some(t@),
        None => None,
    }
}

proof fn lemma_triggered_single(input: Seq<char>, rules: Seq<WebPrefix>, i: int)
    requires
        0 <= i < rules.len(),
        rules[i].1@.is_prefix_of(input),
        forall|j: int| 0 <= j < rules.len() && j != i ==> !(#[trigger] rules[j].1@.is_prefix_of(input)),
    ensures
        triggered(input, rules) == seq![rules[i]],
    decreases rules.len(),
{
    let pred = |r: WebPrefix| r.1@.is_prefix_of(input);
    let init = rules.drop_last();
    assert(rules =~= init.push(rules.last()));
    init.lemma_filter_push(rules.last(), pred);
    if i == rules.len() - 1 {
        lemma_triggered_none(input, init);
    } else {
        lemma_triggered_single(input, init, i);
    }
}

proof fn lemma_triggered_none(input: Seq<char>, rules: Seq<WebPrefix>)
    requires
        forall|j: int| 0 <= j < rules.len() ==> !(#[trigger] rules[j].1@.is_prefix_of(input)),
    ensures
        triggered(input, rules) == Seq::<WebPrefix>::empty(),
    decreases rules.len(),
{
    let pred = |r: WebPrefix| r.1@.is_prefix_of(input);
    if rules.len() == 0 {
        reveal(Seq::filter);
        assert(rules.filter(pred) =~= Seq::<WebPrefix>::empty());
    } else {
        let init = rules.drop_last();
        assert(rules =~= init.push(rules.last()));
        init.lemma_filter_push(rules.last(), pred);
        lemma_triggered_none(input, init);
    }
}

/// A query that starts with the trigger of exactly one rule gets that rule's
/// expansion: its name, the trimmed rest of the query, and the URL template
/// with that rest (spaces as `+`) in place of the placeholder.
pub proof fn lemma_prefix_single_trigger(input: Seq<char>, rules: Seq<WebPrefix>, i: int)
    requires
        0 <= i < rules.len(),
        rules[i].1@.is_prefix_of(input),
        forall|j: int| 0 <= j < rules.len() && j != i ==> !(#[trigger] rules[j].1@.is_prefix_of(input)),
    ensures
        prefix_lane(input, rules) == Some(
            (
                rules[i].0@,
                trim(input.skip(rules[i].1@.len() as int)),
                fill_template(rules[i].2@, plus_for_spaces(trim(input.skip(rules[i].1@.len() as int)))),
            ),
        ),
{
    lemma_triggered_single(input, rules, i);
}

/// A query that starts with no rule's trigger, or with the triggers of two
/// rules or more, gets no prefix entry.
pub proof fn lemma_prefix_no_single_trigger(input: Seq<char>, rules: Seq<WebPrefix>)
    requires
        (forall|j: int| 0 <= j < rules.len() ==> !(#[trigger] rules[j].1@.is_prefix_of(input)))
            || (exists|i: int, j: int|
            0 <= i < j < rules.len() && (#[trigger] rules[i]).1@.is_prefix_of(input) && (
            #[trigger] rules[j]).1@.is_prefix_of(input)),
    ensures
        prefix_lane(input, rules) is None,
{
    let pred = |r: WebPrefix| r.1@.is_prefix_of(input);
    if forall|j: int| 0 <= j < rules.len() ==> !(#[trigger] rules[j].1@.is_prefix_of(input)) {
        lemma_triggered_none(input, rules);
    } else {
        let (i, j) = choose|i: int, j: int|
            0 <= i < j < rules.len() && (#[trigger] rules[i]).1@.is_prefix_of(input) && (
            #[trigger] rules[j]).1@.is_prefix_of(input);
        lemma_filter_two(rules, pred, i, j);
    }
}

proof fn lemma_filter_two(s: Seq<WebPrefix>, pred: spec_fn(WebPrefix) -> bool, i: int, j: int)
    requires
        0 <= i < j < s.len(),
        pred(s[i]),
        pred(s[j]),
    ensures
        s.filter(pred).len() >= 2,
    decreases s.len(),
{
    let init = s.drop_last();
    assert(s =~= init.push(s.last()));
    init.lemma_filter_push(s.last(), pred);
    if j == s.len() - 1 {
        lemma_filter_one(init, pred, i);
    } else {
        lemma_filter_two(init, pred, i, j);
    }
}

proof fn lemma_filter_one(s: Seq<WebPrefix>, pred: spec_fn(WebPrefix) -> bool, i: int)
    requires
        0 <= i < s.len(),
        pred(s[i]),
    ensures
        s.filter(pred).len() >= 1,
    decreases s.len(),
{
    let init = s.drop_last();
    assert(s =~= init.push(s.last()));
    init.lemma_filter_push(s.last(), pred);
    if i < s.len() - 1 {
        lemma_filter_one(init, pred, i);
    }
}

/// The fallback lane: the query and the search URL made from it.
pub open spec fn web_lane(input: Seq<char>, template: Seq<char>) -> (Seq<char>, Seq<char>) {
    (input, fill_template(template, plus_for_spaces(input)))
}

/// What `meval::eval_str` followed by `f64`'s `Display` makes of a query:
/// the value's decimal text, or nothing where the query is no expression.
pub uninterp spec fn math_text_of(s: Seq<char>) -> Option<Seq<char>>;

/// A character that meval's tokenizer skips as blank.
pub open spec fn math_blank_char(c: char) -> bool {
    c == ' ' || c == '\t' || c == '\r' || c == '\n'
}

/// A query that is not empty and holds only blanks: meval's tokenizer stops
/// on it with a panic rather than an error, so it is never evaluated.
pub open spec fn math_blank(s: Seq<char>) -> bool {
    s.len() > 0 && forall|k: int| 0 <= k < s.len() ==> math_blank_char(#[trigger] s[k])
}

/// The math lane: nothing for a blank query, else what meval makes of it.
pub open spec fn math_lane(s: Seq<char>) -> Option<Seq<char>> {
    if math_blank(s) {
        None
    } else {
        math_text_of(s)
    }
}

/// Relies on `meval::eval_str`, which evaluates an arithmetic expression with
/// the built-in constants and functions; the value is rendered in decimal.
/// A blank query makes its tokenizer panic, so it is kept out.
#[verifier::external_body]
fn eval_math(input: &str) -> (r: Option<String>)
    requires
        !math_blank(input@),
    ensures
        option_string_view(r) == math_text_of(input@),
{
    meval::eval_str(input).ok().map(|v| v.to_string())
}

/// Whether some name of `list` is one of `current`.
fn listed_exec(list: &Vec<String>, current: &Vec<String>) -> (r: bool)
    ensures
        r == on_listed_desktop(list@, current@),
{
    let mut i: usize = 0;
    while i < list.len()
        invariant
            i <= list@.len(),
            forall|a: int, b: int|
                0 <= a < i && 0 <= b < current@.len() ==> #[trigger] list@[a]@ != #[trigger] current@[b]@,
        decreases list@.len() - i,
    {
        let mut j: usize = 0;
        while j < current.len()
            invariant
                i < list@.len(),
                j <= current@.len(),
                forall|a: int, b: int|
                    0 <= a < i && 0 <= b < current@.len() ==> #[trigger] list@[a]@ != #[trigger] current@[b]@,
                forall|b: int| 0 <= b < j ==> list@[i as int]@ != #[trigger] current@[b]@,
            decreases current@.len() - j,
        {
            if list[i] == current[j] {
                return true;
            }
            j = j + 1;
        }
        i = i + 1;
    }
    false
}

/// Whether the application may be listed: not hidden, and admitted on the
/// current desktops.
pub fn is_visible(app: &AppDescriptor, current: &Option<Vec<String>>) -> (r: bool)
    ensures
        r == app_visible(*app, *current),
{
    if app.no_display {
        return false;
    }
    match current {
        None => true,
        Some(cur) => {
            let allowed = match &app.only_show_in {
                None => true,
                Some(l) => listed_exec(l, cur),
            };
            let denied = match &app.not_show_in {
                None => false,
                Some(l) => listed_exec(l, cur),
            };
            allowed && !denied
        },
    }
}

/// The prefix lane of `input` under `rules`.
pub fn get_prefix_results(input: &str, rules: &Vec<WebPrefix>) -> (r: Option<WebPrefix>)
    ensures
        option_rule_view(r) == prefix_lane(input@, rules@),
{
    let ic = chars_of(input);
    let mut result: Option<WebPrefix> = None;
    let mut i: usize = 0;
    let ghost pred = |r: WebPrefix| r.1@.is_prefix_of(input@);
    assert(rules@.take(0) =~= Seq::<WebPrefix>::empty());
    assert(Seq::<WebPrefix>::empty().filter(pred) =~= Seq::<WebPrefix>::empty()) by {
        reveal(Seq::filter);
    }
    while i < rules.len()
        invariant
            ic@ == input@,
            i <= rules@.len(),
            pred == (|r: WebPrefix| r.1@.is_prefix_of(input@)),
            rules@.take(i as int).filter(pred).len() <= 1,
            result.is_some() == (rules@.take(i as int).filter(pred).len() == 1),
            result.is_some() ==> rule_view(result->0) == expand_rule(
                input@,
                rules@.take(i as int).filter(pred)[0],
            ),
        decreases rules@.len() - i,
    {
        let rule = &rules[i];
        let tc = chars_of(rule.1.as_str());
        assert(rules@.take(i + 1) =~= rules@.take(i as int).push(rules@[i as int]));
        proof {
            rules@.take(i as int).lemma_filter_push(rules@[i as int], pred);
        }
        if starts_with(&ic, &tc) {
            if result.is_some() {
                proof {
                    rules@.lemma_filter_take_len(pred, i + 1);
                }
                return None;
            }
            let rest = trim_chars(&ic.as_slice()[tc.len()..ic.len()]);
            assert(ic@.subrange(tc@.len() as int, ic@.len() as int) =~= input@.skip(tc@.len() as int));
            let url = fill_template_chars(&chars_of(rule.2.as_str()), &spaces_to_plus(&rest));
            result = Some((rule.0.clone(), string_of(&rest), string_of(&url)));
        }
        i = i + 1;
    }
    assert(rules@.take(rules@.len() as int) =~= rules@);
    result
}

/// The fallback lane: the query itself and the search URL for it.
pub fn get_web_result(input: &str, search_template: &str) -> (r: (String, String))
    ensures
        (r.0@, r.1@) == web_lane(input@, search_template@),
{
    let ic = chars_of(input);
    let url = fill_template_chars(&chars_of(search_template), &spaces_to_plus(&ic));
    (string_of(&ic), string_of(&url))
}

/// The math lane: the value of `input` as an arithmetic expression, in
/// decimal, or nothing where it is none.
pub fn get_math_result(input: &str) -> (r: Option<String>)
    ensures
        math_blank(input@) ==> r is None,
        !math_blank(input@) ==> option_string_view(r) == math_text_of(input@),
{
    let n = input.unicode_len();
    let mut i: usize = 0;
    while i < n
        invariant
            n == input@.len(),
            i <= n,
            forall|k: int| 0 <= k < i ==> math_blank_char(#[trigger] input@[k]),
        decreases n - i,
    {
        let c = input.get_char(i);
        if !(c == ' ' || c == '\t' || c == '\r' || c == '\n') {
            assert(!math_blank_char(input@[i as int]));
            return eval_math(input);
        }
        i = i + 1;
    }
    if n > 0 {
        None
    } else {
        eval_math(input)
    }
}

/// `r` is in `app_before` order.
pub open spec fn sorted_apps(apps: Seq<AppDescriptor>, r: Seq<usize>) -> bool {
    forall|k1: int, k2: int|
        0 <= k1 < k2 < r.len() ==> app_before(apps, #[trigger] r[k1] as int, #[trigger] r[k2] as int)
}

/// Where index `i`, larger than every index in `r`, goes in `r`: after the
/// applications whose name sorts no later than its own.
fn insertion_point(apps: &Vec<AppDescriptor>, r: &Vec<usize>, i: usize) -> (pos: usize)
    requires
        i < apps@.len(),
        forall|k: int| 0 <= k < r@.len() ==> #[trigger] r@[k] < i,
        sorted_apps(apps@, r@),
    ensures
        pos <= r@.len(),
        forall|k: int| 0 <= k < pos ==> app_before(apps@, #[trigger] r@[k] as int, i as int),
        forall|k: int| pos <= k < r@.len() ==> app_before(apps@, i as int, #[trigger] r@[k] as int),
{
    let mut pos: usize = 0;
    while pos < r.len() && str_le(apps[r[pos]].name.as_str(), apps[i].name.as_str())
        invariant
            i < apps@.len(),
            pos <= r@.len(),
            forall|k: int| 0 <= k < r@.len() ==> #[trigger] r@[k] < i,
            forall|k: int| 0 <= k < pos ==> app_before(apps@, #[trigger] r@[k] as int, i as int),
        decreases r@.len() - pos,
    {
        pos = pos + 1;
    }
    proof {
        if pos < r@.len() {
            let np = apps@[r@[pos as int] as int].name@;
            let ni = apps@[i as int].name@;
            lemma_chars_le_total(np, ni);
            assert forall|k: int| pos <= k < r@.len() implies app_before(
                apps@,
                i as int,
                #[trigger] r@[k] as int,
            ) by {
                let nk = apps@[r@[k] as int].name@;
                if k > pos {
                    assert(app_before(apps@, r@[pos as int] as int, r@[k] as int));
                    if chars_le(nk, ni) {
                        lemma_chars_le_transitive(np, nk, ni);
                    }
                }
                lemma_chars_le_total(nk, ni);
            }
        }
    }
    pos
}

/// The application lane over case-folded names: the indices of the visible
/// applications whose folded name contains `folded_query`, sorted by name
/// (equal names in index order).
pub fn select_apps(
    apps: &Vec<AppDescriptor>,
    folded_names: &Vec<String>,
    folded_query: &str,
    current: &Option<Vec<String>>,
) -> (r: Vec<usize>)
    requires
        folded_names@.len() == apps@.len(),
    ensures
        app_lane_folded(
            apps@,
            folded_names@.map_values(|s: String| s@),
            folded_query@,
            *current,
            r@,
        ),
{
    let ghost folded = folded_names@.map_values(|s: String| s@);
    let qc = chars_of(folded_query);
    let mut r: Vec<usize> = Vec::new();
    let mut i: usize = 0;
    while i < apps.len()
        invariant
            folded_names@.len() == apps@.len(),
            folded == folded_names@.map_values(|s: String| s@),
            qc@ == folded_query@,
            i <= apps@.len(),
            forall|k: int|
                0 <= k < r@.len() ==> #[trigger] r@[k] < i && app_visible(
                    apps@[r@[k] as int],
                    *current,
                ) && contains(folded[r@[k] as int], folded_query@),
            forall|j: int|
                0 <= j < i && app_visible(apps@[j], *current) && contains(folded[j], folded_query@)
                    ==> r@.contains(j as usize),
            r@.no_duplicates(),
            sorted_apps(apps@, r@),
        decreases apps@.len() - i,
    {
        let keep = is_visible(&apps[i], current) && contains_chars(
            &chars_of(folded_names[i].as_str()),
            &qc,
        );
        if keep {
            let pos = insertion_point(apps, &r, i);
            let ghost old_r = r@;
            r.insert(pos, i);
            proof {
                assert forall|k: int| 0 <= k < r@.len() implies (#[trigger] r@[k] == i && k == pos) || (
                k < pos && r@[k] == old_r[k]) || (k > pos && r@[k] == old_r[k - 1]) by {}
                assert forall|j: int|
                    0 <= j < i + 1 && app_visible(apps@[j], *current) && contains(
                        folded[j],
                        folded_query@,
                    ) implies r@.contains(j as usize) by {
                    if j < i {
                        let m = choose|m: int| 0 <= m < old_r.len() && old_r[m] == j as usize;
                        if m < pos {
                            assert(r@[m] == j as usize);
                        } else {
                            assert(r@[m + 1] == j as usize);
                        }
                    } else {
                        assert(r@[pos as int] == i);
                    }
                }
            }
        } else {
            proof {
                assert forall|j: int|
                    0 <= j < i + 1 && app_visible(apps@[j], *current) && contains(
                        folded[j],
                        folded_query@,
                    ) implies r@.contains(j as usize) by {
                    if j == i {
                        assert(folded[j] == folded_names@[j]@);
                    }
                }
            }
        }
        i = i + 1;
    }
    r
}

/// The application lane of `input`: names and query case-folded with
/// `str::to_lowercase`.
pub fn get_desktop_entries(
    input: &str,
    apps: &Vec<AppDescriptor>,
    current: &Option<Vec<String>>,
) -> (r: Vec<usize>)
    ensures
        app_lane(apps@, input@, *current, r@),
{
    let mut folded_names: Vec<String> = Vec::new();
    let mut i: usize = 0;
    while i < apps.len()
        invariant
            i <= apps@.len(),
            folded_names@.len() == i,
            forall|k: int| 0 <= k < i ==> #[trigger] folded_names@[k]@ == lower_of(apps@[k].name@),
        decreases apps@.len() - i,
    {
        folded_names.push(lowercase(apps[i].name.as_str()));
        i = i + 1;
    }
    let folded_query = lowercase(input);
    let r = select_apps(apps, &folded_names, folded_query.as_str(), current);
    assert(folded_names@.map_values(|s: String| s@) =~= apps@.map_values(
        |a: AppDescriptor| lower_of(a.name@),
    ));
    r
}

/// The application lane has one value only: two lists that meet its
/// description for the same applications and query are equal.
pub proof fn lemma_app_lane_unique(
    apps: Seq<AppDescriptor>,
    folded: Seq<Seq<char>>,
    folded_query: Seq<char>,
    current: Option<Vec<String>>,
    r1: Seq<usize>,
    r2: Seq<usize>,
)
    requires
        app_lane_folded(apps, folded, folded_query, current, r1),
        app_lane_folded(apps, folded, folded_query, current, r2),
    ensures
        r1 == r2,
{
    lemma_sorted_same_members(apps, r1, r2);
}

proof fn lemma_sorted_same_members(apps: Seq<AppDescriptor>, r1: Seq<usize>, r2: Seq<usize>)
    requires
        r1.no_duplicates(),
        r2.no_duplicates(),
        sorted_apps(apps, r1),
        sorted_apps(apps, r2),
        forall|x: usize| r1.contains(x) <==> r2.contains(x),
    ensures
        r1 == r2,
    decreases r1.len(),
{
    if r1.len() == 0 {
        if r2.len() > 0 {
            assert(r2.contains(r2[0]));
        }
        assert(r1 =~= r2);
    } else {
        assert(r1.contains(r1[0]));
        let p = choose|p: int| 0 <= p < r2.len() && r2[p] == r1[0];
        if p > 0 {
            assert(r2.contains(r2[0]));
            let q = choose|q: int| 0 <= q < r1.len() && r1[q] == r2[0];
            assert(app_before(apps, r2[0] as int, r2[p] as int));
            if q > 0 {
                assert(app_before(apps, r1[0] as int, r1[q] as int));
            }
        }
        let t1 = r1.drop_first();
        let t2 = r2.drop_first();
        assert forall|x: usize| t1.contains(x) <==> t2.contains(x) by {
            if t1.contains(x) {
                let m = choose|m: int| 0 <= m < t1.len() && t1[m] == x;
                assert(r1[m + 1] == x);
                assert(r2.contains(x));
                let n = choose|n: int| 0 <= n < r2.len() && r2[n] == x;
                assert(n != 0);
                assert(t2[n - 1] == x);
            }
            if t2.contains(x) {
                let m = choose|m: int| 0 <= m < t2.len() && t2[m] == x;
                assert(r2[m + 1] == x);
                assert(r1.contains(x));
                let n = choose|n: int| 0 <= n < r1.len() && r1[n] == x;
                assert(n != 0);
                assert(t1[n - 1] == x);
            }
        }
        lemma_sorted_same_members(apps, t1, t2);
        assert(p == 0);
        assert(r1.len() == r2.len());
        assert forall|k: int| 0 <= k < r1.len() implies r1[k] == r2[k] by {
            if k > 0 {
                assert(t1[k - 1] == t2[k - 1]);
            }
        }
        assert(r1 =~= r2);
    }
}

/// The four lanes of the latest query, with the application index they are
/// computed against.
#[derive(Debug)]
pub struct SprintResults {
    pub prefix_results: Option<WebPrefix>,
    pub math_result: Option<String>,
    /// Positions in the application index.
    pub desktop_results: Vec<usize>,
    pub web_result: (String, String),
    /// The application index, built once.
    pub desktop_file_cache: Vec<AppDescriptor>,
    /// The desktops the session runs, where known.
    pub current_desktop: Option<Vec<String>>,
}

impl SprintResults {
    pub open spec fn apps(&self) -> Seq<AppDescriptor> {
        self.desktop_file_cache@
    }

    pub open spec fn current(&self) -> Option<Vec<String>> {
        self.current_desktop
    }

    /// Every lane holds what query `q` gives under `config`.
    pub open spec fn resolves(&self, q: Seq<char>, config: SprintConfig) -> bool {
        &&& option_rule_view(self.prefix_results) == prefix_lane(q, config.web_prefixes@)
        &&& option_string_view(self.math_result) == math_lane(q)
        &&& app_lane(self.apps(), q, self.current(), self.desktop_results@)
        &&& (self.web_result.0@, self.web_result.1@) == web_lane(q, config.search_template@)
    }

    /// Empty lanes over the given application index and desktops.
    pub fn new(apps: Vec<AppDescriptor>, current_desktop: Option<Vec<String>>) -> (r: Self)
        ensures
            r.apps() == apps@,
            r.current() == current_desktop,
            r.prefix_results.is_none(),
            r.math_result.is_none(),
            r.desktop_results@.len() == 0,
            r.web_result.0@.len() == 0,
            r.web_result.1@.len() == 0,
    {
        Self {
            prefix_results: None,
            math_result: None,
            desktop_results: Vec::new(),
            web_result: (String::new(), String::new()),
            desktop_file_cache: apps,
            current_desktop,
        }
    }

    /// The application at position `i` of the index.
    pub fn app(&self, i: usize) -> (a: &AppDescriptor)
        requires
            i < self.apps().len(),
        ensures
            *a == self.apps()[i as int],
    {
        &self.desktop_file_cache[i]
    }

    pub fn app_count(&self) -> (n: usize)
        ensures
            n == self.apps().len(),
    {
        self.desktop_file_cache.len()
    }

    /// Recomputes every lane for `input`.
    pub fn refresh_results(&mut self, input: &str, config: &SprintConfig)
        ensures
            final(self).resolves(input@, *config),
            final(self).apps() == old(self).apps(),
            final(self).current() == old(self).current(),
    {
        self.prefix_results = get_prefix_results(input, &config.web_prefixes);
        self.math_result = get_math_result(input);
        self.desktop_results = get_desktop_entries(input, &self.desktop_file_cache, &self.current_desktop);
        self.web_result = get_web_result(input, config.search_template.as_str());
    }
}

/// Resolution depends on the query, the configuration and the application
/// index alone: two result sets that both resolve `q` are lane for lane equal.
pub proof fn lemma_resolution_deterministic(
    a: SprintResults,
    b: SprintResults,
    q: Seq<char>,
    config: SprintConfig,
)
    requires
        a.resolves(q, config),
        b.resolves(q, config),
        a.apps() == b.apps(),
        a.current() == b.current(),
    ensures
        option_rule_view(a.prefix_results) == option_rule_view(b.prefix_results),
        option_string_view(a.math_result) == option_string_view(b.math_result),
        a.desktop_results@ == b.desktop_results@,
        a.web_result.0@ == b.web_result.0@,
        a.web_result.1@ == b.web_result.1@,
{
    let folded = a.apps().map_values(|x: AppDescriptor| lower_of(x.name@));
    lemma_app_lane_unique(
        a.apps(),
        folded,
        lower_of(q),
        a.current(),
        a.desktop_results@,
        b.desktop_results@,
    );
}

} // verus!
