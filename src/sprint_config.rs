//! Launcher configuration: the values a configuration file provides, their
//! defaults, and the resolved form the rest of the launcher reads.

use vstd::prelude::*;
use vstd::string::StringExecFns;
use crate::render_canvas::Color;

verus! {

/// A web-prefix rule: display name, trigger, URL template.
pub type WebPrefix = (String, String, String);

pub open spec fn rule_view(r: WebPrefix) -> (Seq<char>, Seq<char>, Seq<char>) {
    (r.0@, r.1@, r.2@)
}

pub open spec fn rules_view(rs: Seq<WebPrefix>) -> Seq<(Seq<char>, Seq<char>, Seq<char>)> {
    rs.map_values(|r: WebPrefix| rule_view(r))
}

pub open spec fn strings_view(v: Seq<String>) -> Seq<Seq<char>> {
    v.map_values(|s: String| s@)
}

/// The rules a fresh configuration carries.
pub open spec fn default_rules() -> Seq<(Seq<char>, Seq<char>, Seq<char>)> {
    seq![
        ("Wikipedia"@, ">wiki"@, "https://en.wikipedia.org/w/index.php?search=%%QUERY%%"@),
        ("StackExchange"@, ">exchange"@, "https://stackexchange.com/search?q=%%QUERY%%"@),
        ("StackOverflow"@, ">overflow"@, "https://stackoverflow.com/search?q=%%QUERY%%"@),
        ("YouTube"@, ">yt"@, "https://www.youtube.com/results?search_query=%%QUERY%%"@),
        ("GitHub"@, ">gh"@, "https://github.com/search?q=%%QUERY%%"@),
        ("LinkedIn"@, ">lnkin"@, "https://www.linkedin.com/search/results/all/?keywords=%%QUERY%%"@),
        ("Reddit"@, ">reddit"@, "https://www.reddit.com/search/?q=%%QUERY%%"@),
        ("Facebook"@, ">facebook"@, "https://www.facebook.com/search/top/?q=%%QUERY%%"@),
        ("Google"@, ">google"@, "https://www.google.com/search?q=%%QUERY%%"@),
        ("Bing"@, ">bing"@, "https://www.bing.com/search?q=%%QUERY%%"@),
        ("DuckDuckGo"@, ">ddg"@, "https://duckduckgo.com/?q=%%QUERY%%"@),
    ]
}

/// The lane order a fresh configuration carries.
pub open spec fn default_result_order() -> Seq<Seq<char>> {
    seq!["prefixes"@, "math"@, "desktop"@, "search"@]
}

/// Configuration values as a configuration file states them.
#[derive(Debug)]
pub struct SprintConfigRaw {
    pub font: String,
    pub background_color: (u8, u8, u8),
    pub foreground_color: (u8, u8, u8),
    pub seperator_color: (u8, u8, u8),
    pub selection_hover_color: (u8, u8, u8),
    pub search_template: String,
    pub web_prefixes: Vec<WebPrefix>,
    pub result_order: Vec<String>,
}

fn rule(name: &str, trigger: &str, template: &str) -> (r: WebPrefix)
    ensures
        rule_view(r) == (name@, trigger@, template@),
{
    (String::from_str(name), String::from_str(trigger), String::from_str(template))
}

impl Default for SprintConfigRaw {
    fn default() -> (c: Self)
        ensures
            c.font@ == "FreeSans"@,
            c.background_color == (25u8, 25u8, 25u8),
            c.foreground_color == (30u8, 30u8, 30u8),
            c.seperator_color == (112u8, 69u8, 156u8),
            c.selection_hover_color == (72u8, 43u8, 102u8),
            c.search_template@ == "https://duckduckgo.com/?q=%%QUERY%%"@,
            rules_view(c.web_prefixes@) == default_rules(),
            strings_view(c.result_order@) == default_result_order(),
    {
        let web_prefixes = vec![
            rule("Wikipedia", ">wiki", "https://en.wikipedia.org/w/index.php?search=%%QUERY%%"),
            rule("StackExchange", ">exchange", "https://stackexchange.com/search?q=%%QUERY%%"),
            rule("StackOverflow", ">overflow", "https://stackoverflow.com/search?q=%%QUERY%%"),
            rule("YouTube", ">yt", "https://www.youtube.com/results?search_query=%%QUERY%%"),
            rule("GitHub", ">gh", "https://github.com/search?q=%%QUERY%%"),
            rule("LinkedIn", ">lnkin", "https://www.linkedin.com/search/results/all/?keywords=%%QUERY%%"),
            rule("Reddit", ">reddit", "https://www.reddit.com/search/?q=%%QUERY%%"),
            rule("Facebook", ">facebook", "https://www.facebook.com/search/top/?q=%%QUERY%%"),
            rule("Google", ">google", "https://www.google.com/search?q=%%QUERY%%"),
            rule("Bing", ">bing", "https://www.bing.com/search?q=%%QUERY%%"),
            rule("DuckDuckGo", ">ddg", "https://duckduckgo.com/?q=%%QUERY%%"),
        ];
        let result_order = vec![
            String::from_str("prefixes"),
            String::from_str("math"),
            String::from_str("desktop"),
            String::from_str("search"),
        ];
        assert(rules_view(web_prefixes@) =~= default_rules());
        assert(strings_view(result_order@) =~= default_result_order());
        Self {
            font: String::from_str("FreeSans"),
            background_color: (25, 25, 25),
            foreground_color: (30, 30, 30),
            seperator_color: (112, 69, 156),
            selection_hover_color: (72, 43, 102),
            search_template: String::from_str("https://duckduckgo.com/?q=%%QUERY%%"),
            web_prefixes,
            result_order,
        }
    }
}

/// The configuration the launcher runs with: colors made opaque, the font
/// kept by name for the renderer to load.
#[derive(Debug)]
pub struct SprintConfig {
    pub font: String,
    pub background_color: Color,
    pub foreground_color: Color,
    pub seperator_color: Color,
    pub selection_hover_color: Color,
    pub search_template: String,
    pub web_prefixes: Vec<WebPrefix>,
    pub result_order: Vec<String>,
}

pub open spec fn opaque(t: (u8, u8, u8)) -> Color {
    Color { r: t.0, g: t.1, b: t.2, a: 255 }
}

impl SprintConfig {
    /// Resolves file values into the running configuration.
    pub fn from_raw(raw: SprintConfigRaw) -> (c: Self)
        ensures
            c.font@ == raw.font@,
            c.background_color == opaque(raw.background_color),
            c.foreground_color == opaque(raw.foreground_color),
            c.seperator_color == opaque(raw.seperator_color),
            c.selection_hover_color == opaque(raw.selection_hover_color),
            c.search_template@ == raw.search_template@,
            c.web_prefixes@ == raw.web_prefixes@,
            c.result_order@ == raw.result_order@,
    {
        Self {
            background_color: Color::from_tuple(raw.background_color, 255),
            foreground_color: Color::from_tuple(raw.foreground_color, 255),
            seperator_color: Color::from_tuple(raw.seperator_color, 255),
            selection_hover_color: Color::from_tuple(raw.selection_hover_color, 255),
            font: raw.font,
            search_template: raw.search_template,
            web_prefixes: raw.web_prefixes,
            result_order: raw.result_order,
        }
    }
}

} // verus!
