//! GG's settings, read from the `gg.*` keys of the jj configuration.
//!
//! The configuration layers are read elsewhere; this module holds the values
//! found there as plain data and decides what each setting is, defaults
//! included.
use vstd::prelude::*;
use vstd::string::*;

use crate::keyed::{entry_get, entry_insert, law_map_insert_keeps_others, law_map_read_after_insert, StringMap};
use crate::text::{chars_of, str_eq};

verus! {

/// Which front end GG starts.
#[derive(Clone, Copy, Debug, PartialEq, Eq, Structural)]
pub enum LaunchMode {
    Gui,
    Web,
}

impl Default for LaunchMode {
    fn default() -> (r: Self)
        ensures
            r == LaunchMode::Gui,
    {
        LaunchMode::Gui
    }
}

/// The name of a launch mode.
pub open spec fn launch_mode_name(m: LaunchMode) -> Seq<char> {
    match m {
        LaunchMode::Gui => "gui"@,
        LaunchMode::Web => "web"@,
    }
}

impl LaunchMode {
    /// The name of the mode, as it is written in the configuration.
    pub fn as_str(&self) -> (r: &'static str)
        ensures
            r@ == launch_mode_name(*self),
    {
        match self {
            LaunchMode::Gui => "gui",
            LaunchMode::Web => "web",
        }
    }
}

/// The mode that the configured `gg.default-mode` selects: `web` selects the
/// web mode; anything else, or nothing, the GUI.
pub open spec fn launch_mode_from(raw: Option<Seq<char>>) -> LaunchMode {
    if raw == Some("web"@) {
        LaunchMode::Web
    } else {
        LaunchMode::Gui
    }
}

/// Reads `gg.default-mode`.
pub fn default_mode(raw: Option<&str>) -> (r: LaunchMode)
    ensures
        r == launch_mode_from(match raw {
            Some(s) => Some(s@),
            None => None,
        }),
{
    match raw {
        Some(s) => {
            if str_eq(s, "web") {
                LaunchMode::Web
            } else {
                LaunchMode::Gui
            }
        },
        None => LaunchMode::Gui,
    }
}

/// A span of time, as seconds and nanoseconds below a second.
#[derive(Clone, Copy, Debug, PartialEq, Eq, Structural)]
pub struct ClientTimeout {
    pub secs: u64,
    pub nanos: u32,
}

/// What `humantime::parse_duration` makes of `text`, as seconds and
/// nanoseconds; `None` where it reports an error.
pub uninterp spec fn humantime_duration(text: Seq<char>) -> Option<(u64, u32)>;

/// Whether `c` is an ASCII digit.
pub open spec fn is_ascii_digit(c: char) -> bool {
    '0' <= c && c <= '9'
}

/// The ASCII digits of `s` read in order as one decimal number, and how
/// many digits there are.
pub open spec fn digits_read(s: Seq<char>) -> (nat, nat)
    decreases s.len(),
{
    if s.len() == 0 {
        (0, 0)
    } else {
        let (v, k) = digits_read(s.drop_last());
        let c = s.last();
        if is_ascii_digit(c) {
            ((v * 10 + (c as int - '0' as int)) as nat, k + 1)
        } else {
            (v, k)
        }
    }
}

/// The number of seconds in a year of 365.25 days, the longest unit that
/// `humantime` reads.
pub const YEAR_SECS: u64 = 31_557_600u64;

/// The largest digit measure (see [`duration_text_bounded`]) that is kept.
pub const DIGIT_MEASURE_LIMIT: u64 = 584_542_046_090u64;

/// Whether the digits of `text` keep every span it can denote below
/// `u64::MAX` seconds. Each number that `humantime` reads is made of its
/// own digits of the text, in order, so the numbers add up to at most the
/// digits read as one number; each counts at most a year per unit, and a
/// fraction adds less than one unit per number.
pub open spec fn duration_text_bounded(text: Seq<char>) -> bool {
    (digits_read(text).0 + digits_read(text).1) * YEAR_SECS < u64::MAX
}

/// Reading more of a text never lowers its digit measure.
proof fn lemma_digits_read_grows(s: Seq<char>, i: int, j: int)
    requires
        0 <= i <= j <= s.len(),
    ensures
        digits_read(s.subrange(0, i)).0 + digits_read(s.subrange(0, i)).1 <= digits_read(
            s.subrange(0, j),
        ).0 + digits_read(s.subrange(0, j)).1,
    decreases j - i,
{
    if i < j {
        lemma_digits_read_grows(s, i, j - 1);
        assert(s.subrange(0, j).drop_last() == s.subrange(0, j - 1));
    }
}

/// Decides [`duration_text_bounded`].
fn duration_text_fits(text: &str) -> (r: bool)
    ensures
        r == duration_text_bounded(text@),
{
    let v = chars_of(text);
    let n = v.len();
    let mut value: u64 = 0;
    let mut count: u64 = 0;
    let mut i: usize = 0;
    assert(v@.subrange(0, 0) =~= Seq::<char>::empty());
    while i < n
        invariant
            n == v.len(),
            v@ == text@,
            i <= n,
            (value as nat, count as nat) == digits_read(v@.subrange(0, i as int)),
            value + count <= DIGIT_MEASURE_LIMIT,
        decreases n - i,
    {
        assert(v@.subrange(0, i + 1).drop_last() == v@.subrange(0, i as int));
        let c = v[i];
        if '0' <= c && c <= '9' {
            let d = (c as u32 - '0' as u32) as u64;
            value = value * 10 + d;
            count = count + 1;
            if value + count > DIGIT_MEASURE_LIMIT {
                proof {
                    lemma_digits_read_grows(v@, i + 1, n as int);
                    assert(v@.subrange(0, n as int) == text@);
                    let m = digits_read(text@).0 + digits_read(text@).1;
                    assert(m * YEAR_SECS >= u64::MAX) by (nonlinear_arith)
                        requires
                            m > DIGIT_MEASURE_LIMIT,
                    ;
                }
                return false;
            }
        }
        i = i + 1;
    }
    proof {
        assert(v@.subrange(0, n as int) == text@);
        let m = digits_read(text@).0 + digits_read(text@).1;
        assert(m * YEAR_SECS < u64::MAX) by (nonlinear_arith)
            requires
                m <= DIGIT_MEASURE_LIMIT,
        ;
    }
    true
}

/// Calls `humantime::parse_duration`, which reads spans such as `10m` or
/// `1h 30s`. Its grammar is not restated: the result is named. Stated are the
/// special case its source makes of `0` and the range of the nanoseconds
/// that `Duration::subsec_nanos` documents. The parser panics (in
/// `Duration::new`) when a sum reaches `u64::MAX` seconds with a whole second
/// of nanoseconds still to carry; `requires` keeps every sum below that.
#[verifier::external_body]
fn parse_duration(text: &str) -> (r: Option<(u64, u32)>)
    requires
        duration_text_bounded(text@),
    ensures
        r == humantime_duration(text@),
        text@ == "0"@ ==> r == Some((0u64, 0u32)),
        r matches Some(d) ==> d.1 < 1_000_000_000,
{
    humantime::parse_duration(text).ok().map(|d| (d.as_secs(), d.subsec_nanos()))
}

/// The client timeout a parsed `gg.web.client-timeout` gives: the parsed
/// span, or ten minutes.
pub open spec fn client_timeout_spec(parsed: Option<(u64, u32)>) -> ClientTimeout {
    match parsed {
        Some(d) => ClientTimeout { secs: d.0, nanos: d.1 },
        None => ClientTimeout { secs: 600, nanos: 0 },
    }
}

/// Applies the default to a parsed client timeout.
pub fn client_timeout_or_default(parsed: Option<(u64, u32)>) -> (r: ClientTimeout)
    ensures
        r == client_timeout_spec(parsed),
{
    match parsed {
        Some((secs, nanos)) => ClientTimeout { secs, nanos },
        None => ClientTimeout { secs: 600, nanos: 0 },
    }
}

/// The settings GG reads.
pub trait GGSettings {
    fn default_mode(&self) -> LaunchMode;

    fn query_log_page_size(&self) -> usize;

    fn query_large_repo_heuristic(&self) -> i64;

    fn query_auto_snapshot(&self) -> Option<bool>;

    fn ui_theme_override(&self) -> Option<String>;

    fn ui_mark_unpushed_bookmarks(&self) -> bool;

    fn ui_track_recent_workspaces(&self) -> bool;

    fn ui_recent_workspaces(&self) -> Vec<String>;

    fn web_default_port(&self) -> u16;

    fn web_client_timeout(&self) -> ClientTimeout;

    fn web_launch_browser(&self) -> bool;
}

/// The raw values of the `gg.*` settings: `None` where a key is unset or
/// does not hold a value of its type.
#[derive(Clone, Debug)]
pub struct GgConfig {
    /// `gg.default-mode`
    pub default_mode: Option<String>,
    /// `gg.queries.log-page-size`
    pub log_page_size: Option<i64>,
    /// `gg.queries.large-repo-heuristic`
    pub large_repo_heuristic: Option<i64>,
    /// `gg.queries.auto-snapshot`
    pub auto_snapshot: Option<bool>,
    /// `gg.ui.theme-override`
    pub theme_override: Option<String>,
    /// `gg.ui.mark-unpushed-bookmarks`
    pub mark_unpushed_bookmarks: Option<bool>,
    /// `gg.ui.mark-unpushed-branches`, the older name of the above
    pub mark_unpushed_branches: Option<bool>,
    /// `gg.ui.track-recent-workspaces`
    pub track_recent_workspaces: Option<bool>,
    /// `gg.ui.recent-workspaces`, if an array: each item's text, if a string
    pub recent_workspaces: Option<Vec<Option<String>>>,
    /// `gg.web.default-port`
    pub web_default_port: Option<i64>,
    /// `gg.web.client-timeout`
    pub web_client_timeout: Option<String>,
    /// `gg.web.launch-browser`
    pub web_launch_browser: Option<bool>,
}

/// The strings among `items`, in order.
pub open spec fn strings_among(items: Seq<Option<String>>) -> Seq<Seq<char>>
    decreases items.len(),
{
    if items.len() == 0 {
        seq![]
    } else {
        let rest = strings_among(items.drop_last());
        match items.last() {
            Some(s) => rest.push(s@),
            None => rest,
        }
    }
}

/// Copies an optional string.
fn copy_opt(s: &Option<String>) -> (r: Option<String>)
    ensures
        match (r, *s) {
            (Some(a), Some(b)) => a@ == b@,
            (None, None) => true,
            _ => false,
        },
{
    match s {
        Some(t) => Some(String::from_str(t.as_str())),
        None => None,
    }
}

impl GGSettings for GgConfig {
    fn default_mode(&self) -> (r: LaunchMode)
        ensures
            r == launch_mode_from(match self.default_mode {
                Some(s) => Some(s@),
                None => None,
            }),
    {
        match &self.default_mode {
            Some(s) => default_mode(Some(s.as_str())),
            None => default_mode(None),
        }
    }

    fn query_log_page_size(&self) -> (r: usize)
        ensures
            r == (match self.log_page_size {
                Some(v) => v as usize,
                None => 1000usize,
            }),
    {
        match self.log_page_size {
            Some(v) => v as usize,
            None => 1000,
        }
    }

    fn query_large_repo_heuristic(&self) -> (r: i64)
        ensures
            r == (match self.large_repo_heuristic {
                Some(v) => v,
                None => 100000i64,
            }),
    {
        match self.large_repo_heuristic {
            Some(v) => v,
            None => 100000,
        }
    }

    fn query_auto_snapshot(&self) -> (r: Option<bool>)
        ensures
            r == self.auto_snapshot,
    {
        self.auto_snapshot
    }

    fn ui_theme_override(&self) -> (r: Option<String>)
        ensures
            match (r, self.theme_override) {
                (Some(a), Some(b)) => a@ == b@,
                (None, None) => true,
                _ => false,
            },
    {
        copy_opt(&self.theme_override)
    }

    fn ui_mark_unpushed_bookmarks(&self) -> (r: bool)
        ensures
            r == (match (self.mark_unpushed_bookmarks, self.mark_unpushed_branches) {
                (Some(b), _) => b,
                (None, Some(b)) => b,
                (None, None) => true,
            }),
    {
        match self.mark_unpushed_bookmarks {
            Some(b) => b,
            None => match self.mark_unpushed_branches {
                Some(b) => b,
                None => true,
            },
        }
    }

    fn ui_track_recent_workspaces(&self) -> (r: bool)
        ensures
            r == (match self.track_recent_workspaces {
                Some(b) => b,
                None => true,
            }),
    {
        match self.track_recent_workspaces {
            Some(b) => b,
            None => true,
        }
    }

    fn ui_recent_workspaces(&self) -> (r: Vec<String>)
        ensures
            r@.map_values(|s: String| s@) == (match self.recent_workspaces {
                Some(items) => strings_among(items@),
                None => Seq::<Seq<char>>::empty(),
            }),
    {
        let mut out: Vec<String> = Vec::new();
        match &self.recent_workspaces {
            Some(items) => {
                let mut i: usize = 0;
                assert(items@.subrange(0, 0) =~= Seq::<Option<String>>::empty());
                while i < items.len()
                    invariant
                        i <= items@.len(),
                        out@.map_values(|s: String| s@) == strings_among(
                            items@.subrange(0, i as int),
                        ),
                    decreases items@.len() - i,
                {
                    assert(items@.subrange(0, i + 1).drop_last() == items@.subrange(0, i as int));
                    let ghost before = out@;
                    match &items[i] {
                        Some(s) => {
                            out.push(String::from_str(s.as_str()));
                            assert(out@.map_values(|s: String| s@) =~= before.map_values(
                                |s: String| s@,
                            ).push(s@));
                        },
                        None => {},
                    }
                    i = i + 1;
                }
                assert(items@.subrange(0, items@.len() as int) =~= items@);
            },
            None => {
                assert(out@.map_values(|s: String| s@) =~= Seq::<Seq<char>>::empty());
            },
        }
        out
    }

    fn web_default_port(&self) -> (r: u16)
        ensures
            r == (match self.web_default_port {
                Some(v) => v as u16,
                None => 0u16,
            }),
    {
        match self.web_default_port {
            Some(v) => v as u16,
            None => 0,
        }
    }

    /// `gg.web.client-timeout` as `humantime` reads it, or ten minutes where
    /// it is unset or unreadable. A text whose digits would let the parser
    /// overflow (see [`duration_text_bounded`]) is not read.
    fn web_client_timeout(&self) -> (r: ClientTimeout)
        ensures
            r == client_timeout_spec(match self.web_client_timeout {
                Some(s) => if duration_text_bounded(s@) {
                    humantime_duration(s@)
                } else {
                    None
                },
                None => None,
            }),
    {
        let parsed = match &self.web_client_timeout {
            Some(s) => if duration_text_fits(s.as_str()) {
                parse_duration(s.as_str())
            } else {
                None
            },
            None => None,
        };
        client_timeout_or_default(parsed)
    }

    fn web_launch_browser(&self) -> (r: bool)
        ensures
            r == (match self.web_launch_browser {
                Some(b) => b,
                None => true,
            }),
    {
        match self.web_launch_browser {
            Some(b) => b,
            None => true,
        }
    }
}

// ---------------------------------------------------------------------------
// Revset query choices
// ---------------------------------------------------------------------------

/// The entries of one configuration layer's `[gg.revsets]` table: each key
/// with its text, or `None` where the value is not a string.
pub open spec fn layer_views(entries: Seq<(String, Option<String>)>) -> Seq<(Seq<char>, Option<Seq<char>>)> {
    entries.map_values(
        |e: (String, Option<String>)|
            (e.0@, match e.1 {
                Some(v) => Some(v@),
                None => None,
            }),
    )
}

/// `choices` with the string entries of a table set in order.
pub open spec fn choices_after(
    choices: Seq<(Seq<char>, Seq<char>)>,
    entries: Seq<(Seq<char>, Option<Seq<char>>)>,
) -> Seq<(Seq<char>, Seq<char>)>
    decreases entries.len(),
{
    if entries.len() == 0 {
        choices
    } else {
        let before = choices_after(choices, entries.drop_last());
        match entries.last().1 {
            Some(v) => entry_insert(before, entries.last().0, v),
            None => before,
        }
    }
}

/// The query choices that the layers give, read from the first to the last,
/// a later layer overriding an earlier one; a layer without the table adds
/// nothing.
pub open spec fn query_choices(layers: Seq<Option<Seq<(Seq<char>, Option<Seq<char>>)>>>) -> Seq<
    (Seq<char>, Seq<char>),
>
    decreases layers.len(),
{
    if layers.len() == 0 {
        seq![]
    } else {
        let before = query_choices(layers.drop_last());
        match layers.last() {
            Some(t) => choices_after(before, t),
            None => before,
        }
    }
}

/// The views of the layers.
pub open spec fn layers_views(layers: Seq<Option<Vec<(String, Option<String>)>>>) -> Seq<
    Option<Seq<(Seq<char>, Option<Seq<char>>)>>,
> {
    layers.map_values(
        |l: Option<Vec<(String, Option<String>)>>|
            match l {
                Some(t) => Some(layer_views(t@)),
                None => None,
            },
    )
}

/// Collects the revset query choices of `[gg.revsets]` over the layers.
pub fn read_revset_query_choices(layers: &Vec<Option<Vec<(String, Option<String>)>>>) -> (r:
    StringMap)
    ensures
        r@ == query_choices(layers_views(layers@)),
{
    let ghost all = layers_views(layers@);
    let mut choices = StringMap::new();
    let mut i: usize = 0;
    assert(all.subrange(0, 0) =~= Seq::<Option<Seq<(Seq<char>, Option<Seq<char>>)>>>::empty());
    while i < layers.len()
        invariant
            i <= layers@.len(),
            all == layers_views(layers@),
            choices@ == query_choices(all.subrange(0, i as int)),
        decreases layers@.len() - i,
    {
        assert(all.subrange(0, i + 1).drop_last() == all.subrange(0, i as int));
        assert(all.subrange(0, i + 1).last() == all[i as int]);
        match &layers[i] {
            Some(table) => {
                let ghost tv = layer_views(table@);
                let ghost start = choices@;
                let mut j: usize = 0;
                assert(tv.subrange(0, 0) =~= Seq::<(Seq<char>, Option<Seq<char>>)>::empty());
                while j < table.len()
                    invariant
                        j <= table@.len(),
                        tv == layer_views(table@),
                        choices@ == choices_after(start, tv.subrange(0, j as int)),
                    decreases table@.len() - j,
                {
                    assert(tv.subrange(0, j + 1).drop_last() == tv.subrange(0, j as int));
                    assert(tv.subrange(0, j + 1).last() == tv[j as int]);
                    let (key, value) = &table[j];
                    match value {
                        Some(v) => {
                            choices.insert(
                                String::from_str(key.as_str()),
                                String::from_str(v.as_str()),
                            );
                        },
                        None => {},
                    }
                    j = j + 1;
                }
                assert(tv.subrange(0, table@.len() as int) =~= tv);
            },
            None => {},
        }
        i = i + 1;
    }
    assert(all.subrange(0, layers@.len() as int) =~= all);
    choices
}

/// Within one table, the last string value set for a key is the one that
/// stays.
proof fn lemma_last_entry_wins(
    choices: Seq<(Seq<char>, Seq<char>)>,
    entries: Seq<(Seq<char>, Option<Seq<char>>)>,
    j: int,
    k: Seq<char>,
    v: Seq<char>,
)
    requires
        0 <= j < entries.len(),
        entries[j] == (k, Some(v)),
        forall|i: int| j < i < entries.len() ==> (#[trigger] entries[i]).0 != k || entries[i].1 is None,
    ensures
        entry_get(choices_after(choices, entries), k) == Some(v),
    decreases entries.len(),
{
    let before = choices_after(choices, entries.drop_last());
    if j == entries.len() - 1 {
        law_map_read_after_insert(before, k, v);
    } else {
        assert forall|i: int| j < i < entries.drop_last().len() implies (#[trigger] entries.drop_last()[i]).0
            != k || entries.drop_last()[i].1 is None by {
            assert(entries.drop_last()[i] == entries[i]);
        }
        assert(entries.drop_last()[j] == entries[j]);
        lemma_last_entry_wins(choices, entries.drop_last(), j, k, v);
        match entries.last().1 {
            Some(w) => {
                assert(entries.last() == entries[entries.len() - 1]);
                law_map_insert_keeps_others(before, entries.last().0, w, k);
            },
            None => {},
        }
    }
}

/// A query choice that the last layer sets is the one offered, whatever the
/// earlier layers say: the last string value given for the key in that
/// layer.
pub proof fn law_last_layer_overrides(
    layers: Seq<Option<Seq<(Seq<char>, Option<Seq<char>>)>>>,
    table: Seq<(Seq<char>, Option<Seq<char>>)>,
    j: int,
    k: Seq<char>,
    v: Seq<char>,
)
    requires
        0 <= j < table.len(),
        table[j] == (k, Some(v)),
        forall|i: int| j < i < table.len() ==> (#[trigger] table[i]).0 != k || table[i].1 is None,
    ensures
        entry_get(query_choices(layers.push(Some(table))), k) == Some(v),
{
    assert(layers.push(Some(table)).drop_last() =~= layers);
    lemma_last_entry_wins(query_choices(layers), table, j, k, v);
}

}
