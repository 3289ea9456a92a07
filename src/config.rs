//! The converter's settings and its table of per-description rules, resolved
//! once from the configuration document.
use vstd::prelude::*;
use vstd::string::StrSliceExecFns;

verus! {

/// A field of the settings section, as named in the errors.
#[derive(Clone, Copy, Debug, PartialEq, Eq, Structural)]
pub enum Field {
    Currency,
    ProcessingAccount,
    DefaultAccount,
    Date,
    AmountIn,
    AmountOut,
    Description,
    Delimiter,
    Skip,
}

/// Why a configuration document could not be resolved.
#[derive(Clone, Copy, Debug, PartialEq, Eq, Structural)]
pub enum ConfigError {
    /// The document has no settings section.
    Malformed,
    /// A required field is absent.
    Missing(Field),
    /// A field holds a value that cannot stand there (a negative column, a
    /// delimiter that is not one ASCII character).
    Invalid(Field),
    /// Two of the four columns have the same index.
    SharedColumn,
}

/// The settings section as the document gives it: every field may be absent.
pub struct RawSettings {
    pub currency: Option<String>,
    pub processing_account: Option<String>,
    pub default_account: Option<String>,
    pub date: Option<i64>,
    pub amount_in: Option<i64>,
    pub amount_out: Option<i64>,
    pub description: Option<i64>,
    pub delimiter: Option<String>,
    pub skip: Option<i64>,
    pub date_format: Option<String>,
    pub toggle_sign: Option<bool>,
}

/// The settings, with every default applied.
pub struct Settings {
    pub currency: String,
    pub processing_account: String,
    pub default_account: String,
    pub delimiter: u8,
    pub skip: usize,
    pub date_format: String,
    pub toggle_sign: bool,
    pub date: usize,
    pub description: usize,
    pub amount_in: usize,
    pub amount_out: usize,
}

impl Settings {
    /// The four columns are distinct.
    pub open spec fn wf(&self) -> bool {
        self.date != self.description && self.date != self.amount_in && self.date
            != self.amount_out && self.description != self.amount_in && self.description
            != self.amount_out && self.amount_in != self.amount_out
    }
}

pub open spec fn index_ok(v: i64) -> bool {
    0 <= v && v <= usize::MAX
}

pub open spec fn delimiter_ok(s: Seq<char>) -> bool {
    s.len() == 1 && (s[0] as u32) < 128
}

/// The first thing wrong with a settings section, in the order in which the
/// fields are checked: presence of the required fields first, then values.
pub open spec fn settings_problem(s: RawSettings) -> Option<ConfigError> {
    if s.currency is None {
        Some(ConfigError::Missing(Field::Currency))
    } else if s.processing_account is None {
        Some(ConfigError::Missing(Field::ProcessingAccount))
    } else if s.default_account is None {
        Some(ConfigError::Missing(Field::DefaultAccount))
    } else if s.date is None {
        Some(ConfigError::Missing(Field::Date))
    } else if s.amount_in is None {
        Some(ConfigError::Missing(Field::AmountIn))
    } else if s.amount_out is None {
        Some(ConfigError::Missing(Field::AmountOut))
    } else if s.description is None {
        Some(ConfigError::Missing(Field::Description))
    } else if !index_ok(s.date->Some_0) {
        Some(ConfigError::Invalid(Field::Date))
    } else if !index_ok(s.amount_in->Some_0) {
        Some(ConfigError::Invalid(Field::AmountIn))
    } else if !index_ok(s.amount_out->Some_0) {
        Some(ConfigError::Invalid(Field::AmountOut))
    } else if !index_ok(s.description->Some_0) {
        Some(ConfigError::Invalid(Field::Description))
    } else if s.delimiter matches Some(d) && !delimiter_ok(d@) {
        Some(ConfigError::Invalid(Field::Delimiter))
    } else if s.skip matches Some(k) && !index_ok(k) {
        Some(ConfigError::Invalid(Field::Skip))
    } else {
        let (d, a, b, c) = (
            s.date->Some_0,
            s.amount_in->Some_0,
            s.amount_out->Some_0,
            s.description->Some_0,
        );
        if d == a || d == b || d == c || a == b || a == c || b == c {
            Some(ConfigError::SharedColumn)
        } else {
            None
        }
    }
}

/// The date pattern used where the document names none.
pub open spec fn default_date_format() -> Seq<char> {
    seq!['%', 'm', '/', '%', 'd', '/', '%', 'Y']
}

/// What resolving a settings section that has no problem yields.
pub open spec fn resolved_from(s: RawSettings, r: Settings) -> bool {
    &&& r.currency@ == s.currency->Some_0@
    &&& r.processing_account@ == s.processing_account->Some_0@
    &&& r.default_account@ == s.default_account->Some_0@
    &&& r.date == s.date->Some_0
    &&& r.amount_in == s.amount_in->Some_0
    &&& r.amount_out == s.amount_out->Some_0
    &&& r.description == s.description->Some_0
    &&& r.delimiter == match s.delimiter {
        Some(d) => (d@[0] as u32) as u8,
        None => 44u8,
    }
    &&& r.skip == match s.skip {
        Some(k) => k as usize,
        None => 0usize,
    }
    &&& r.date_format@ == match s.date_format {
        Some(f) => f@,
        None => default_date_format(),
    }
    &&& r.toggle_sign == match s.toggle_sign {
        Some(t) => t,
        None => false,
    }
}

fn to_index(v: i64) -> (r: Option<usize>)
    ensures
        r is Some <==> index_ok(v),
        r matches Some(x) ==> x == v,
{
    if v >= 0 && (v as u64) as u128 <= usize::MAX as u128 {
        Some(v as usize)
    } else {
        None
    }
}

impl Settings {
    /// Resolves a settings section: checks the required fields and applies
    /// the defaults (delimiter `,`, skip 0, date pattern `%m/%d/%Y`, no sign
    /// toggle).
    pub fn resolve(raw: RawSettings) -> (r: Result<Settings, ConfigError>)
        ensures
            match settings_problem(raw) {
                Some(e) => r == Err::<Settings, ConfigError>(e),
                None => r matches Ok(s) && resolved_from(raw, s) && s.wf(),
            },
    {
        let ghost raw0 = raw;
        let currency = match raw.currency {
            Some(v) => v,
            None => return Err(ConfigError::Missing(Field::Currency)),
        };
        let processing_account = match raw.processing_account {
            Some(v) => v,
            None => return Err(ConfigError::Missing(Field::ProcessingAccount)),
        };
        let default_account = match raw.default_account {
            Some(v) => v,
            None => return Err(ConfigError::Missing(Field::DefaultAccount)),
        };
        let (date, amount_in, amount_out, description) = match (
            raw.date,
            raw.amount_in,
            raw.amount_out,
            raw.description,
        ) {
            (None, _, _, _) => return Err(ConfigError::Missing(Field::Date)),
            (_, None, _, _) => return Err(ConfigError::Missing(Field::AmountIn)),
            (_, _, None, _) => return Err(ConfigError::Missing(Field::AmountOut)),
            (_, _, _, None) => return Err(ConfigError::Missing(Field::Description)),
            (Some(d), Some(a), Some(b), Some(c)) => (d, a, b, c),
        };
        let date = match to_index(date) {
            Some(v) => v,
            None => return Err(ConfigError::Invalid(Field::Date)),
        };
        let amount_in = match to_index(amount_in) {
            Some(v) => v,
            None => return Err(ConfigError::Invalid(Field::AmountIn)),
        };
        let amount_out = match to_index(amount_out) {
            Some(v) => v,
            None => return Err(ConfigError::Invalid(Field::AmountOut)),
        };
        let description = match to_index(description) {
            Some(v) => v,
            None => return Err(ConfigError::Invalid(Field::Description)),
        };
        let delimiter: u8 = match &raw.delimiter {
            Some(d) => {
                let t = d.as_str();
                if t.unicode_len() != 1 {
                    return Err(ConfigError::Invalid(Field::Delimiter));
                }
                let c = t.get_char(0);
                if c as u32 >= 128 {
                    return Err(ConfigError::Invalid(Field::Delimiter));
                }
                (c as u32) as u8
            },
            None => 44,
        };
        let skip = match raw.skip {
            Some(k) => match to_index(k) {
                Some(v) => v,
                None => return Err(ConfigError::Invalid(Field::Skip)),
            },
            None => 0,
        };
        if date == amount_in || date == amount_out || date == description || amount_in
            == amount_out || amount_in == description || amount_out == description {
            return Err(ConfigError::SharedColumn);
        }
        let date_format = match raw.date_format {
            Some(f) => f,
            None => {
                let f = "%m/%d/%Y".to_owned();
                proof {
                    reveal_strlit("%m/%d/%Y");
                    assert(f@ == default_date_format());
                }
                f
            },
        };
        let toggle_sign = match raw.toggle_sign {
            Some(t) => t,
            None => false,
        };
        Ok(
            Settings {
                currency,
                processing_account,
                default_account,
                delimiter,
                skip,
                date_format,
                toggle_sign,
                date,
                description,
                amount_in,
                amount_out,
            },
        )
    }
}

/// What a rule says: an account that replaces the default one, and a memo.
pub struct Rule {
    pub account: Option<String>,
    pub info: Option<String>,
}

pub open spec fn rule_model(r: Rule) -> (Option<Seq<char>>, Option<Seq<char>>) {
    (r.account.deep_view(), r.info.deep_view())
}

/// The rules, keyed by the exact text of a transaction's description.
pub struct RuleTable {
    entries: Vec<(String, Rule)>,
}

/// The map that a list of entries denotes: a later entry for a description
/// replaces an earlier one.
pub open spec fn rules_map(e: Seq<(String, Rule)>) -> Map<
    Seq<char>,
    (Option<Seq<char>>, Option<Seq<char>>),
>
    decreases e.len(),
{
    if e.len() == 0 {
        Map::empty()
    } else {
        rules_map(e.drop_last()).insert(e.last().0@, rule_model(e.last().1))
    }
}

proof fn lemma_rules_map_suffix(e: Seq<(String, Rule)>, i: int, key: Seq<char>)
    requires
        0 <= i <= e.len(),
        forall|j: int| i <= j < e.len() ==> e[j].0@ != key,
    ensures
        rules_map(e).contains_key(key) == rules_map(e.take(i)).contains_key(key),
        rules_map(e).contains_key(key) ==> rules_map(e)[key] == rules_map(e.take(i))[key],
    decreases e.len() - i,
{
    if i < e.len() {
        assert(e.drop_last().take(i) == e.take(i));
        lemma_rules_map_suffix(e.drop_last(), i, key);
    } else {
        assert(e.take(i) == e);
    }
}

impl View for RuleTable {
    type V = Map<Seq<char>, (Option<Seq<char>>, Option<Seq<char>>)>;

    closed spec fn view(&self) -> Self::V {
        rules_map(self.entries@)
    }
}

/// Whether two texts are equal, character by character.
pub fn same_text(a: &str, b: &str) -> (r: bool)
    ensures
        r == (a@ == b@),
{
    let n = a.unicode_len();
    if n != b.unicode_len() {
        return false;
    }
    let mut i: usize = 0;
    while i < n
        invariant
            n == a@.len(),
            n == b@.len(),
            i <= n,
            forall|j: int| 0 <= j < i ==> a@[j] == b@[j],
        decreases n - i,
    {
        if a.get_char(i) != b.get_char(i) {
            return false;
        }
        i = i + 1;
    }
    assert(a@ == b@);
    true
}

impl RuleTable {
    /// A table with no rules.
    pub fn new() -> (r: RuleTable)
        ensures
            r@ == Map::<Seq<char>, (Option<Seq<char>>, Option<Seq<char>>)>::empty(),
    {
        RuleTable { entries: Vec::new() }
    }

    /// Sets the rule for a description, replacing any earlier one.
    pub fn insert(&mut self, description: String, rule: Rule)
        ensures
            final(self)@ == old(self)@.insert(description@, rule_model(rule)),
    {
        let ghost k = description@;
        let ghost m = rule_model(rule);
        self.entries.push((description, rule));
        proof {
            assert(self.entries@.drop_last() == old(self).entries@);
        }
    }

    /// The rule for exactly this description, if there is one.
    pub fn get(&self, description: &str) -> (r: Option<&Rule>)
        ensures
            match r {
                Some(x) => self@.contains_key(description@) && self@[description@] == rule_model(
                    *x,
                ),
                None => !self@.contains_key(description@),
            },
    {
        let mut i: usize = self.entries.len();
        while i > 0
            invariant
                i <= self.entries@.len(),
                forall|j: int| i <= j < self.entries@.len() ==> self.entries@[j].0@ != description@,
            decreases i,
        {
            let entry = &self.entries[i - 1];
            if same_text(entry.0.as_str(), description) {
                proof {
                    lemma_rules_map_suffix(self.entries@, i as int, description@);
                    assert(self.entries@.take(i as int).drop_last() == self.entries@.take(
                        i - 1,
                    ));
                }
                return Some(&entry.1);
            }
            i = i - 1;
        }
        proof {
            lemma_rules_map_suffix(self.entries@, 0, description@);
        }
        None
    }
}

/// A configuration document: a settings section and an optional rules
/// section, mapping descriptions to rules.
pub struct RawConfig {
    pub settings: Option<RawSettings>,
    pub rules: Option<Vec<(String, Rule)>>,
}

/// The rules that a rules section denotes, where there is one.
pub open spec fn rules_of(rules: Option<Vec<(String, Rule)>>) -> Map<
    Seq<char>,
    (Option<Seq<char>>, Option<Seq<char>>),
> {
    match rules {
        Some(v) => rules_map(v@),
        None => Map::empty(),
    }
}

impl RuleTable {
    /// The table that holds the given rules; of two for one description the
    /// later one stands.
    pub fn from_rules(rules: Vec<(String, Rule)>) -> (r: RuleTable)
        ensures
            r@ == rules_map(rules@),
    {
        RuleTable { entries: rules }
    }
}

/// Resolves a whole configuration document into settings and a rule table.
/// A document without a settings section is malformed; one without a rules
/// section has no rules.
pub fn resolve_config(raw: RawConfig) -> (r: Result<(Settings, RuleTable), ConfigError>)
    ensures
        match raw.settings {
            None => r == Err::<(Settings, RuleTable), ConfigError>(ConfigError::Malformed),
            Some(s) => match settings_problem(s) {
                Some(e) => r == Err::<(Settings, RuleTable), ConfigError>(e),
                None => r matches Ok(done) && resolved_from(s, done.0) && done.0.wf() && done.1@
                    == rules_of(raw.rules),
            },
        },
{
    let raw_settings = match raw.settings {
        Some(s) => s,
        None => return Err(ConfigError::Malformed),
    };
    let settings = Settings::resolve(raw_settings)?;
    let table = match raw.rules {
        Some(v) => RuleTable::from_rules(v),
        None => RuleTable::new(),
    };
    Ok((settings, table))
}

} // verus!
