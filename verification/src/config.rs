//! The configuration that the linter works from.

use crate::errors::{ConfigAdjustError, ConfigError};
use crate::text::{comes_before, holds_text, same_text, sort_texts, sorted_texts, text_before};
use vstd::prelude::*;
use vstd::string::*;

verus! {

/// The error of the `url` crate for a text that is no address.
#[verifier::external_type_specification]
#[verifier::external_body]
pub struct ExUrlParseError(url::ParseError);

/// Whether `Url::parse` reads `input` as an address.
pub uninterp spec fn url_parses(input: Seq<char>) -> bool;

/// What `Url::domain` gives for the address that `Url::parse` reads from
/// `input`: the name of its host, where it has a host and that is a name.
pub uninterp spec fn url_domain(input: Seq<char>) -> Option<Seq<char>>;

/// `Url::parse` and `Url::domain`: reads an address and hands out the name
/// of its host.
#[verifier::external_body]
fn domain_of(value: &str) -> (r: Result<Option<String>, url::ParseError>)
    ensures
        r is Ok <==> url_parses(value@),
        r matches Ok(domain) ==> domain.deep_view() == url_domain(value@),
{
    let url = url::Url::parse(value)?;
    match url.domain() {
        Some(domain) => Ok(Some(domain.to_string())),
        None => Ok(None),
    }
}

/// A change type: its name as it stands in a changelog header, and the short
/// form used elsewhere.
#[derive(Clone, Debug, PartialEq)]
pub struct ChangeTypeConfig {
    pub short: String,
    pub long: String,
}

/// What a `ChangeTypeConfig` holds.
pub struct ChangeTypeConfigView {
    pub short: Seq<char>,
    pub long: Seq<char>,
}

impl DeepView for ChangeTypeConfig {
    type V = ChangeTypeConfigView;

    open spec fn deep_view(&self) -> ChangeTypeConfigView {
        ChangeTypeConfigView { short: self.short@, long: self.long@ }
    }
}

impl View for ChangeTypeConfig {
    type V = ChangeTypeConfigView;

    open spec fn view(&self) -> ChangeTypeConfigView {
        self.deep_view()
    }
}

/// Whether the changelog is one file or a directory of files.
#[derive(Clone, Copy, Debug, PartialEq, Eq)]
pub enum Mode {
    Single,
    Multi,
}

/// The house style of a changelog.
#[derive(Clone, Debug)]
pub struct Config {
    /// The categories that an entry may name.
    pub categories: Vec<String>,
    /// The change types that a release may be divided into.
    pub change_types: Vec<ChangeTypeConfig>,
    /// The commit message for a new changelog entry.
    pub commit_message: String,
    /// The relative path of the changelog file.
    pub changelog_path: String,
    /// Where the entries of a changelog of many files are kept.
    pub changelog_dir: Option<String>,
    /// The expected spellings: each pair holds the correct spelling and a
    /// pattern for what is to be spelled so. The pairs are applied in the
    /// order in which they stand.
    pub expected_spellings: Vec<(String, String)>,
    /// The newest version whose release, like all older ones, is exempt
    /// from the checks.
    pub legacy_version: Option<String>,
    /// Whether the changelog is one file or many.
    pub mode: Mode,
    /// The address of the repository that links have to point to.
    pub target_repo: String,
    /// Whether an entry has to name a category.
    pub use_categories: bool,
    /// The version of the form in which the configuration is kept.
    pub config_version: u16,
}

/// The version of the form in which configurations are kept now.
pub const CURRENT_CONFIG_VERSION: u16 = 1;

/// What a `Config` holds.
pub struct ConfigView {
    pub categories: Seq<Seq<char>>,
    pub change_types: Seq<ChangeTypeConfigView>,
    pub commit_message: Seq<char>,
    pub changelog_path: Seq<char>,
    pub changelog_dir: Option<Seq<char>>,
    pub expected_spellings: Seq<(Seq<char>, Seq<char>)>,
    pub legacy_version: Option<Seq<char>>,
    pub mode: Mode,
    pub target_repo: Seq<char>,
    pub use_categories: bool,
    pub config_version: u16,
}

impl DeepView for Config {
    type V = ConfigView;

    open spec fn deep_view(&self) -> ConfigView {
        ConfigView {
            categories: self.categories.deep_view(),
            change_types: self.change_types.deep_view(),
            commit_message: self.commit_message@,
            changelog_path: self.changelog_path@,
            changelog_dir: self.changelog_dir.deep_view(),
            expected_spellings: self.expected_spellings.deep_view(),
            legacy_version: self.legacy_version.deep_view(),
            mode: self.mode,
            target_repo: self.target_repo@,
            use_categories: self.use_categories,
            config_version: self.config_version,
        }
    }
}

impl View for Config {
    type V = ConfigView;

    open spec fn view(&self) -> ConfigView {
        self.deep_view()
    }
}

/// The index of the first of the first `n` texts that equals `s`; `n` where
/// none does.
pub open spec fn first_index(list: Seq<Seq<char>>, s: Seq<char>, n: nat) -> nat
    decreases n,
{
    if n == 0 {
        0
    } else {
        let before = first_index(list, s, (n - 1) as nat);
        if before < n - 1 {
            before
        } else if list[n - 1] == s {
            (n - 1) as nat
        } else {
            n
        }
    }
}

/// An index that `first_index` gives below `n` is the one of a text equal
/// to `s`, and no text before it equals `s`.
pub proof fn lemma_first_index(list: Seq<Seq<char>>, s: Seq<char>, n: nat)
    requires
        n <= list.len(),
    ensures
        first_index(list, s, n) <= n,
        first_index(list, s, n) < n ==> list[first_index(list, s, n) as int] == s,
        forall|i: int| 0 <= i < first_index(list, s, n) ==> list[i] != s,
    decreases n,
{
    if n > 0 {
        lemma_first_index(list, s, (n - 1) as nat);
    }
}

/// Finds the first text of the list that equals `s`.
fn find_first(list: &Vec<String>, s: &str) -> (r: Option<usize>)
    ensures
        match r {
            Some(i) => i < list.len() && first_index(list.deep_view(), s@, list.len() as nat)
                == i,
            None => first_index(list.deep_view(), s@, list.len() as nat) == list.len(),
        },
        r is Some <==> list.deep_view().contains(s@),
{
    let mut i: usize = 0;
    while i < list.len()
        invariant
            i <= list.len(),
            first_index(list.deep_view(), s@, i as nat) == i,
            forall|j: int| 0 <= j < i ==> list.deep_view()[j] != s@,
        decreases list.len() - i,
    {
        if same_text(list[i].as_str(), s) {
            proof {
                lemma_first_stays(list.deep_view(), s@, i as nat + 1, list.len() as nat);
                assert(list.deep_view()[i as int] == s@);
            }
            return Some(i);
        }
        i += 1;
    }
    None
}

/// An index found among the first `n` texts is the one among the first `m`.
pub proof fn lemma_first_stays(list: Seq<Seq<char>>, s: Seq<char>, n: nat, m: nat)
    requires
        n <= m <= list.len(),
        first_index(list, s, n) < n,
    ensures
        first_index(list, s, m) == first_index(list, s, n),
    decreases m - n,
{
    if n < m {
        lemma_first_stays(list, s, n, (m - 1) as nat);
    }
}

/// The long names of the change types.
pub open spec fn long_names(types: Seq<ChangeTypeConfigView>) -> Seq<Seq<char>> {
    types.map_values(|t: ChangeTypeConfigView| t.long)
}

/// The short names of the change types.
pub open spec fn short_names(types: Seq<ChangeTypeConfigView>) -> Seq<Seq<char>> {
    types.map_values(|t: ChangeTypeConfigView| t.short)
}

/// The spellings that the pairs expect.
pub open spec fn spelling_keys(pairs: Seq<(Seq<char>, Seq<char>)>) -> Seq<Seq<char>> {
    pairs.map_values(|p: (Seq<char>, Seq<char>)| p.0)
}

/// How many of the first `n` pairs come before `key` in the order of
/// strings, counted from the start up to the first that does not.
pub open spec fn insert_position(pairs: Seq<(Seq<char>, Seq<char>)>, key: Seq<char>, n: nat) -> nat
    decreases n,
{
    if n == 0 {
        0
    } else {
        let before = insert_position(pairs, key, (n - 1) as nat);
        if before == n - 1 && text_before(pairs[n - 1].0, key) {
            n
        } else {
            before
        }
    }
}

/// Whether the pairs stand in the order of strings of the spellings that
/// they expect, none twice.
pub open spec fn spellings_in_order(pairs: Seq<(Seq<char>, Seq<char>)>) -> bool {
    forall|i: int, j: int|
        0 <= i < j < pairs.len() ==> text_before(#[trigger] pairs[i].0, #[trigger] pairs[j].0)
}

/// The pairs before the position at which a spelling is put in come before
/// it in the order of strings, and the pair at the position does not.
pub proof fn lemma_insert_position(pairs: Seq<(Seq<char>, Seq<char>)>, key: Seq<char>, n: nat)
    requires
        n <= pairs.len(),
    ensures
        insert_position(pairs, key, n) <= n,
        forall|i: int|
            0 <= i < insert_position(pairs, key, n) ==> text_before(#[trigger] pairs[i].0, key),
        insert_position(pairs, key, n) < n ==> !text_before(
            pairs[insert_position(pairs, key, n) as int].0,
            key,
        ),
    decreases n,
{
    if n > 0 {
        lemma_insert_position(pairs, key, (n - 1) as nat);
    }
}

/// Expected spellings that stand in the order of strings stay in that
/// order when a new spelling is added: the pairs are what a map in the
/// order of its keys holds.
pub proof fn lemma_spellings_stay_in_order(
    pairs: Seq<(Seq<char>, Seq<char>)>,
    key: Seq<char>,
    value: Seq<char>,
)
    requires
        spellings_in_order(pairs),
        !spelling_keys(pairs).contains(key),
    ensures
        spellings_in_order(
            pairs.insert(insert_position(pairs, key, pairs.len()) as int, (key, value)),
        ),
{
    let at = insert_position(pairs, key, pairs.len()) as int;
    let after = pairs.insert(at, (key, value));
    lemma_insert_position(pairs, key, pairs.len());
    assert forall|i: int, j: int| 0 <= i < j < after.len() implies text_before(
        #[trigger] after[i].0,
        #[trigger] after[j].0,
    ) by {
        if j == at {
            assert(after[i] == pairs[i]);
        } else if i == at {
            assert(after[j] == pairs[j - 1]);
            assert(spelling_keys(pairs)[at] == pairs[at].0);
            crate::text_laws::lemma_text_order_total(pairs[at].0, key);
            if j - 1 > at {
                assert(text_before(pairs[at].0, pairs[j - 1].0));
                crate::text_laws::lemma_text_order_transitive(key, pairs[at].0, pairs[j - 1].0);
            }
        } else {
            let x = if i < at {
                i
            } else {
                i - 1
            };
            let y = if j < at {
                j
            } else {
                j - 1
            };
            assert(after[i] == pairs[x] && after[j] == pairs[y]);
            assert(text_before(pairs[x].0, pairs[y].0));
        }
    }
}

/// What adding a category does: a category that the configuration holds
/// already is refused; any other is added, and the categories are put into
/// the order of strings.
pub open spec fn category_added(
    before: ConfigView,
    value: Seq<char>,
    r: Result<(), ConfigAdjustError>,
    after: ConfigView,
) -> bool {
    if before.categories.contains(value) {
        r == Err::<(), ConfigAdjustError>(ConfigAdjustError::CategoryAlreadyFound) && after
            == before
    } else {
        &&& r is Ok
        &&& after.categories.to_multiset() == before.categories.push(value).to_multiset()
        &&& sorted_texts(after.categories)
        &&& after == (ConfigView { categories: after.categories, ..before })
    }
}

/// What removing a category does: the first category of that name is taken
/// out; one that the configuration does not hold is an error.
pub open spec fn category_removed(
    before: ConfigView,
    value: Seq<char>,
    r: Result<(), ConfigAdjustError>,
    after: ConfigView,
) -> bool {
    if before.categories.contains(value) {
        r is Ok && after == (ConfigView {
            categories: before.categories.remove(
                first_index(before.categories, value, before.categories.len()) as int,
            ),
            ..before
        })
    } else {
        r == Err::<(), ConfigAdjustError>(ConfigAdjustError::NotFound) && after == before
    }
}

/// What adding a change type does: a long or a short name that the
/// configuration holds already is refused, the long one first, and is named
/// in the error; any other change type is added at the end.
pub open spec fn change_type_added(
    before: ConfigView,
    long: Seq<char>,
    short: Seq<char>,
    r: Result<(), ConfigAdjustError>,
    after: ConfigView,
) -> bool {
    if long_names(before.change_types).contains(long) {
        r matches Err(ConfigAdjustError::DuplicateChangeType(name)) && name@ == long && after
            == before
    } else if short_names(before.change_types).contains(short) {
        r matches Err(ConfigAdjustError::DuplicateChangeType(name)) && name@ == short && after
            == before
    } else {
        r is Ok && after == (ConfigView {
            change_types: before.change_types.push(ChangeTypeConfigView { short, long }),
            ..before
        })
    }
}

/// What removing a change type does: the first change type of that short
/// name is taken out; one that the configuration does not hold is an error.
pub open spec fn change_type_removed(
    before: ConfigView,
    short: Seq<char>,
    r: Result<(), ConfigAdjustError>,
    after: ConfigView,
) -> bool {
    if short_names(before.change_types).contains(short) {
        r is Ok && after == (ConfigView {
            change_types: before.change_types.remove(
                first_index(
                    short_names(before.change_types),
                    short,
                    before.change_types.len(),
                ) as int,
            ),
            ..before
        })
    } else {
        r == Err::<(), ConfigAdjustError>(ConfigAdjustError::NotFound) && after == before
    }
}

/// What adding an expected spelling to pairs does: a spelling that the
/// pairs hold already is refused; any other is put in with its pattern,
/// before the first pair that does not come before it in the order of
/// strings.
pub open spec fn spelling_added(
    before: Seq<(Seq<char>, Seq<char>)>,
    key: Seq<char>,
    value: Seq<char>,
    r: Result<(), ConfigAdjustError>,
    after: Seq<(Seq<char>, Seq<char>)>,
) -> bool {
    if spelling_keys(before).contains(key) {
        r == Err::<(), ConfigAdjustError>(ConfigAdjustError::KeyAlreadyFound) && after == before
    } else {
        r is Ok && after == before.insert(
            insert_position(before, key, before.len()) as int,
            (key, value),
        )
    }
}

/// What removing an expected spelling from pairs does: its pair is taken
/// out; a spelling that the pairs do not hold is an error.
pub open spec fn spelling_removed(
    before: Seq<(Seq<char>, Seq<char>)>,
    key: Seq<char>,
    r: Result<(), ConfigAdjustError>,
    after: Seq<(Seq<char>, Seq<char>)>,
) -> bool {
    if spelling_keys(before).contains(key) {
        r is Ok && after == before.remove(
            first_index(spelling_keys(before), key, before.len()) as int,
        )
    } else {
        r == Err::<(), ConfigAdjustError>(ConfigAdjustError::NotFound) && after == before
    }
}

impl Config {
    /// Whether a legacy version is configured.
    pub fn has_legacy_version(&self) -> (r: bool)
        ensures
            r == self@.legacy_version is Some,
    {
        self.legacy_version.is_some()
    }

    /// Finds the position of the first change type with the given name, long
    /// or short.
    fn find_change_type(&self, name: &str, long: bool) -> (r: Option<usize>)
        ensures
            match r {
                Some(i) => i < self.change_types.len() && first_index(
                    if long {
                        long_names(self@.change_types)
                    } else {
                        short_names(self@.change_types)
                    },
                    name@,
                    self@.change_types.len(),
                ) == i,
                None => first_index(
                    if long {
                        long_names(self@.change_types)
                    } else {
                        short_names(self@.change_types)
                    },
                    name@,
                    self@.change_types.len(),
                ) == self.change_types.len(),
            },
    {
        let ghost names = if long {
            long_names(self@.change_types)
        } else {
            short_names(self@.change_types)
        };
        let mut i: usize = 0;
        while i < self.change_types.len()
            invariant
                i <= self.change_types.len(),
                names == if long {
                    long_names(self@.change_types)
                } else {
                    short_names(self@.change_types)
                },
                first_index(names, name@, i as nat) == i,
            decreases self.change_types.len() - i,
        {
            let held = if long {
                self.change_types[i].long.as_str()
            } else {
                self.change_types[i].short.as_str()
            };
            assert(names[i as int] == held@);
            if same_text(held, name) {
                proof {
                    lemma_first_stays(names, name@, i as nat + 1, self.change_types.len() as nat);
                }
                return Some(i);
            }
            i += 1;
        }
        None
    }

    /// The first change type with the long name `long`.
    pub fn get_long_change_type(&self, long: &str) -> (r: Option<ChangeTypeConfig>)
        ensures
            ({
                let i = first_index(
                    long_names(self@.change_types),
                    long@,
                    self@.change_types.len(),
                );
                r.deep_view() == if i < self@.change_types.len() {
                    Some(self@.change_types[i as int])
                } else {
                    None
                }
            }),
    {
        match self.find_change_type(long, true) {
            Some(i) => Some(
                ChangeTypeConfig {
                    short: self.change_types[i].short.clone(),
                    long: self.change_types[i].long.clone(),
                },
            ),
            None => None,
        }
    }

    /// The first change type with the short name `short`.
    pub fn get_short_change_type(&self, short: &str) -> (r: Option<ChangeTypeConfig>)
        ensures
            ({
                let i = first_index(
                    short_names(self@.change_types),
                    short@,
                    self@.change_types.len(),
                );
                r.deep_view() == if i < self@.change_types.len() {
                    Some(self@.change_types[i as int])
                } else {
                    None
                }
            }),
    {
        match self.find_change_type(short, false) {
            Some(i) => Some(
                ChangeTypeConfig {
                    short: self.change_types[i].short.clone(),
                    long: self.change_types[i].long.clone(),
                },
            ),
            None => None,
        }
    }

    /// Adds a category and puts the categories into the order of strings. A
    /// category that the configuration holds already is refused.
    pub fn add_category(&mut self, value: String) -> (r: Result<(), ConfigAdjustError>)
        ensures
            category_added(old(self)@, value@, r, final(self)@),
            r is Err ==> *final(self) == *old(self),
    {
        if holds_text(&self.categories, value.as_str()) {
            return Err(ConfigAdjustError::CategoryAlreadyFound);
        }
        crate::text::push_text(&mut self.categories, value);
        sort_texts(&mut self.categories);
        Ok(())
    }

    /// Removes a category, the first of that name. One that the
    /// configuration does not hold is an error.
    pub fn remove_category(&mut self, value: String) -> (r: Result<(), ConfigAdjustError>)
        ensures
            category_removed(old(self)@, value@, r, final(self)@),
            r is Err ==> *final(self) == *old(self),
    {
        let i = match find_first(&self.categories, value.as_str()) {
            Some(i) => i,
            None => {
                return Err(ConfigAdjustError::NotFound);
            },
        };
        let ghost before = self.categories.deep_view();
        self.categories.remove(i);
        assert(self.categories.deep_view() =~= before.remove(i as int));
        Ok(())
    }

    /// Adds a change type at the end. A long or a short name that the
    /// configuration holds already is refused, the long one first.
    pub fn add_change_type(&mut self, long: String, short: String) -> (r: Result<
        (),
        ConfigAdjustError,
    >)
        ensures
            change_type_added(old(self)@, long@, short@, r, final(self)@),
            r is Err ==> *final(self) == *old(self),
    {
        proof {
            lemma_first_index(
                long_names(self@.change_types),
                long@,
                self@.change_types.len(),
            );
            lemma_first_index(
                short_names(self@.change_types),
                short@,
                self@.change_types.len(),
            );
        }
        if self.find_change_type(long.as_str(), true).is_some() {
            return Err(ConfigAdjustError::DuplicateChangeType(long));
        }
        if self.find_change_type(short.as_str(), false).is_some() {
            return Err(ConfigAdjustError::DuplicateChangeType(short));
        }
        let ghost before = self.change_types.deep_view();
        let ghost added = ChangeTypeConfigView { short: short@, long: long@ };
        self.change_types.push(ChangeTypeConfig { short, long });
        assert(self.change_types.deep_view() =~= before.push(added));
        Ok(())
    }

    /// Removes the first change type with the short name `short`. One that
    /// the configuration does not hold is an error.
    pub fn remove_change_type(&mut self, short: String) -> (r: Result<(), ConfigAdjustError>)
        ensures
            change_type_removed(old(self)@, short@, r, final(self)@),
            r is Err ==> *final(self) == *old(self),
    {
        proof {
            lemma_first_index(
                short_names(self@.change_types),
                short@,
                self@.change_types.len(),
            );
        }
        let i = match self.find_change_type(short.as_str(), false) {
            Some(i) => i,
            None => {
                return Err(ConfigAdjustError::NotFound);
            },
        };
        let ghost before = self.change_types.deep_view();
        self.change_types.remove(i);
        assert(self.change_types.deep_view() =~= before.remove(i as int));
        Ok(())
    }

    /// Adds an expected spelling with the pattern for what is to be spelled
    /// so. A spelling that the configuration holds already is refused.
    pub fn add_expected_spelling(&mut self, key: String, value: String) -> (r: Result<
        (),
        ConfigAdjustError,
    >)
        ensures
            spelling_added(
                old(self)@.expected_spellings,
                key@,
                value@,
                r,
                final(self)@.expected_spellings,
            ),
            final(self)@ == (ConfigView {
                expected_spellings: final(self)@.expected_spellings,
                ..old(self)@
            }),
            r is Err ==> *final(self) == *old(self),
    {
        add_into_collection(&mut self.expected_spellings, key, value)
    }

    /// Removes an expected spelling. One that the configuration does not
    /// hold is an error.
    pub fn remove_expected_spelling(&mut self, key: String) -> (r: Result<(), ConfigAdjustError>)
        ensures
            spelling_removed(
                old(self)@.expected_spellings,
                key@,
                r,
                final(self)@.expected_spellings,
            ),
            final(self)@ == (ConfigView {
                expected_spellings: final(self)@.expected_spellings,
                ..old(self)@
            }),
            r is Err ==> *final(self) == *old(self),
    {
        remove_from_collection(&mut self.expected_spellings, key)
    }

    /// Sets the directory of a changelog of many files.
    pub fn set_changelog_dir(&mut self, value: Option<String>)
        ensures
            final(self)@ == (ConfigView { changelog_dir: value.deep_view(), ..old(self)@ }),
    {
        self.changelog_dir = value;
    }

    /// Sets whether the changelog is one file or many.
    pub fn set_mode(&mut self, mode: Mode)
        ensures
            final(self)@ == (ConfigView { mode, ..old(self)@ }),
    {
        self.mode = mode;
    }

    /// Sets whether an entry has to name a category.
    pub fn set_use_categories(&mut self, value: bool)
        ensures
            final(self)@ == (ConfigView { use_categories: value, ..old(self)@ }),
    {
        self.use_categories = value;
    }

    /// The version of the form in which the configuration is kept.
    pub fn get_version(&self) -> (v: u16)
        ensures
            v == self@.config_version,
    {
        self.config_version
    }

    /// Marks the configuration as kept in the form of now.
    pub fn update_to_current_version(&mut self)
        ensures
            final(self)@ == (ConfigView {
                config_version: CURRENT_CONFIG_VERSION,
                ..old(self)@
            }),
    {
        self.config_version = CURRENT_CONFIG_VERSION;
    }
}

/// The message for a configuration that no migration leads on from.
pub open spec fn no_migration_text(version: u16) -> Seq<char> {
    "No migration path found from version "@ + crate::text::decimal(version as nat) + " to "@
        + crate::text::decimal(CURRENT_CONFIG_VERSION as nat)
}

/// Brings a configuration into the form of now. There is one form so far:
/// a configuration of another version cannot be brought on.
pub fn migrate_to_current(config: &mut Config) -> (r: Result<(), ConfigError>)
    ensures
        *final(config) == *old(config),
        match r {
            Ok(()) => old(config)@.config_version == CURRENT_CONFIG_VERSION,
            Err(ConfigError::InvalidConfig(message)) => old(config)@.config_version
                != CURRENT_CONFIG_VERSION && message@ == no_migration_text(
                old(config)@.config_version,
            ),
        },
{
    let version = config.get_version();
    if version == CURRENT_CONFIG_VERSION {
        return Ok(());
    }
    let mut message = String::from_str("No migration path found from version ");
    crate::text::push_decimal(&mut message, version as u64);
    message.append(" to ");
    crate::text::push_decimal(&mut message, CURRENT_CONFIG_VERSION as u64);
    Err(ConfigError::InvalidConfig(message))
}

/// Whether a configuration is kept in an older form than the one of now. A
/// configuration of a later form is not to be asked about.
pub fn needs_migration(config: &Config) -> (r: bool)
    requires
        config@.config_version <= CURRENT_CONFIG_VERSION,
    ensures
        r == (config@.config_version < CURRENT_CONFIG_VERSION),
{
    config.config_version < CURRENT_CONFIG_VERSION
}

/// What a migration of the configuration would do, in words.
pub open spec fn migration_info(version: u16) -> Seq<char> {
    if version == CURRENT_CONFIG_VERSION {
        "Configuration is already at the current version."@
    } else {
        "Configuration will be migrated from version "@ + crate::text::decimal(version as nat)
            + " to version "@ + crate::text::decimal(CURRENT_CONFIG_VERSION as nat)
            + ".\nNew fields will be added with default values."@
    }
}

/// Says what a migration of the configuration would do.
pub fn get_migration_info(config: &Config) -> (s: String)
    ensures
        s@ == migration_info(config@.config_version),
{
    let from = config.get_version();
    if from == CURRENT_CONFIG_VERSION {
        return String::from_str("Configuration is already at the current version.");
    }
    let mut s = String::from_str("Configuration will be migrated from version ");
    crate::text::push_decimal(&mut s, from as u64);
    s.append(" to version ");
    crate::text::push_decimal(&mut s, CURRENT_CONFIG_VERSION as u64);
    s.append(".\nNew fields will be added with default values.");
    s
}

/// Finds the first pair whose spelling is `key`.
fn find_spelling(pairs: &Vec<(String, String)>, key: &str) -> (r: Option<usize>)
    ensures
        match r {
            Some(i) => i < pairs.len() && first_index(
                spelling_keys(pairs.deep_view()),
                key@,
                pairs.len() as nat,
            ) == i,
            None => first_index(spelling_keys(pairs.deep_view()), key@, pairs.len() as nat)
                == pairs.len(),
        },
        r is Some <==> spelling_keys(pairs.deep_view()).contains(key@),
{
    let ghost keys = spelling_keys(pairs.deep_view());
    let mut i: usize = 0;
    while i < pairs.len()
        invariant
            i <= pairs.len(),
            keys == spelling_keys(pairs.deep_view()),
            first_index(keys, key@, i as nat) == i,
            forall|j: int| 0 <= j < i ==> keys[j] != key@,
        decreases pairs.len() - i,
    {
        assert(keys[i as int] == pairs[i as int].0@);
        if same_text(pairs[i].0.as_str(), key) {
            proof {
                lemma_first_stays(keys, key@, i as nat + 1, pairs.len() as nat);
            }
            return Some(i);
        }
        i += 1;
    }
    None
}

/// Adds a pair of an expected spelling and its pattern to the pairs, before
/// the first pair that does not come before it in the order of strings: in
/// pairs that stand in that order it takes its place among them. A spelling
/// that the pairs hold already is refused.
pub fn add_into_collection(hm: &mut Vec<(String, String)>, key: String, value: String) -> (r:
    Result<(), ConfigAdjustError>)
    ensures
        spelling_added(old(hm).deep_view(), key@, value@, r, final(hm).deep_view()),
        r is Err ==> *final(hm) == *old(hm),
{
    if find_spelling(hm, key.as_str()).is_some() {
        return Err(ConfigAdjustError::KeyAlreadyFound);
    }
    let mut i: usize = 0;
    while i < hm.len() && comes_before(hm[i].0.as_str(), key.as_str())
        invariant
            i <= hm.len(),
            insert_position(hm.deep_view(), key@, i as nat) == i,
        decreases hm.len() - i,
    {
        assert(hm.deep_view()[i as int].0 == hm[i as int].0@);
        i += 1;
    }
    proof {
        if i < hm.len() {
            assert(hm.deep_view()[i as int].0 == hm[i as int].0@);
        }
        lemma_position_stays(hm.deep_view(), key@, i as nat, hm.len() as nat);
    }
    let ghost before = hm.deep_view();
    let ghost pair = (key@, value@);
    hm.insert(i, (key, value));
    assert(hm.deep_view() =~= before.insert(i as int, pair));
    Ok(())
}

/// A position at which the counting stopped among the first `n` pairs is
/// the one among the first `m`.
pub proof fn lemma_position_stays(
    pairs: Seq<(Seq<char>, Seq<char>)>,
    key: Seq<char>,
    n: nat,
    m: nat,
)
    requires
        n <= m <= pairs.len(),
        insert_position(pairs, key, n) == n,
        n < pairs.len() ==> !text_before(pairs[n as int].0, key),
    ensures
        insert_position(pairs, key, m) == n,
    decreases m - n,
{
    if n < m {
        lemma_position_stays(pairs, key, n, (m - 1) as nat);
    }
}

/// Removes the pair of an expected spelling from the pairs. A spelling that
/// the pairs do not hold is an error.
pub fn remove_from_collection(hm: &mut Vec<(String, String)>, key: String) -> (r: Result<
    (),
    ConfigAdjustError,
>)
    ensures
        spelling_removed(old(hm).deep_view(), key@, r, final(hm).deep_view()),
        r is Err ==> *final(hm) == *old(hm),
{
    let i = match find_spelling(hm, key.as_str()) {
        Some(i) => i,
        None => {
            return Err(ConfigAdjustError::NotFound);
        },
    };
    let ghost before = hm.deep_view();
    hm.remove(i);
    assert(hm.deep_view() =~= before.remove(i as int));
    Ok(())
}

/// What becomes of a configuration when its repository is set to `value`:
/// the address has to be one that names the host `github.com`.
pub open spec fn target_repo_set(config: ConfigView, value: Seq<char>) -> Result<
    ConfigView,
    ConfigAdjustError,
> {
    if !url_parses(value) {
        Err(ConfigAdjustError::InvalidURL)
    } else if url_domain(value) != Some("github.com"@) {
        Err(ConfigAdjustError::NoGitHubRepository)
    } else {
        Ok(ConfigView { target_repo: value, ..config })
    }
}

/// Sets the repository that links have to point to, if `value` is an
/// address at GitHub.
pub fn set_target_repo(config: &mut Config, value: String) -> (r: Result<(), ConfigAdjustError>)
    ensures
        match r {
            Ok(()) => target_repo_set(old(config)@, value@) == Ok::<
                ConfigView,
                ConfigAdjustError,
            >(final(config)@),
            Err(e) => target_repo_set(old(config)@, value@) == Err::<
                ConfigView,
                ConfigAdjustError,
            >(e) && *final(config) == *old(config),
        },
{
    match domain_of(value.as_str()) {
        Err(_) => {
            return Err(ConfigAdjustError::InvalidURL);
        },
        Ok(None) => {
            return Err(ConfigAdjustError::NoGitHubRepository);
        },
        Ok(Some(d)) => {
            if !same_text(d.as_str(), "github.com") {
                return Err(ConfigAdjustError::NoGitHubRepository);
            }
        },
    }
    config.target_repo = value;
    Ok(())
}

/// The configuration that a new project starts from.
pub open spec fn default_config() -> ConfigView {
    ConfigView {
        categories: seq![],
        change_types: seq![
            ChangeTypeConfigView { short: "feat"@, long: "Features"@ },
            ChangeTypeConfigView { short: "imp"@, long: "Improvements"@ },
            ChangeTypeConfigView { short: "fix"@, long: "Bug Fixes"@ },
        ],
        commit_message: "add changelog entry"@,
        changelog_path: "CHANGELOG.md"@,
        changelog_dir: None,
        expected_spellings: seq![],
        legacy_version: None,
        mode: Mode::Single,
        target_repo: seq![],
        use_categories: true,
        config_version: CURRENT_CONFIG_VERSION,
    }
}

impl Default for Config {
    fn default() -> (c: Config)
        ensures
            c@ == default_config(),
    {
        let mut change_types: Vec<ChangeTypeConfig> = Vec::new();
        change_types.push(
            ChangeTypeConfig { short: String::from_str("feat"), long: String::from_str("Features") },
        );
        change_types.push(
            ChangeTypeConfig {
                short: String::from_str("imp"),
                long: String::from_str("Improvements"),
            },
        );
        change_types.push(
            ChangeTypeConfig { short: String::from_str("fix"), long: String::from_str("Bug Fixes") },
        );
        let c = Config {
            categories: Vec::new(),
            change_types,
            commit_message: String::from_str("add changelog entry"),
            changelog_path: String::from_str("CHANGELOG.md"),
            changelog_dir: None,
            expected_spellings: Vec::new(),
            legacy_version: None,
            mode: Mode::Single,
            target_repo: String::new(),
            use_categories: true,
            config_version: CURRENT_CONFIG_VERSION,
        };
        assert(c.categories.deep_view() =~= seq![]);
        assert(c.expected_spellings.deep_view() =~= seq![]);
        assert(c.change_types.deep_view() =~= default_config().change_types);
        c
    }
}

/// The configuration that a new project starts from.
pub fn create_default_config() -> (c: Config)
    ensures
        c@ == default_config(),
{
    Config::default()
}

/// The mode that a text names: `single` or `multi`, in capitals or lower
/// case.
pub open spec fn mode_of(s: Seq<char>) -> Option<Mode> {
    if crate::text::lowercase(s) == "single"@ {
        Some(Mode::Single)
    } else if crate::text::lowercase(s) == "multi"@ {
        Some(Mode::Multi)
    } else {
        None
    }
}

impl Mode {
    /// Reads the name of a mode.
    pub fn parse(s: &str) -> (r: Option<Mode>)
        ensures
            r == mode_of(s@),
    {
        let low = crate::text::to_lowercase(s);
        if same_text(low.as_str(), "single") {
            Some(Mode::Single)
        } else if same_text(low.as_str(), "multi") {
            Some(Mode::Multi)
        } else {
            None
        }
    }

    /// The name of the mode.
    pub open spec fn name(self) -> Seq<char> {
        match self {
            Mode::Single => "single"@,
            Mode::Multi => "multi"@,
        }
    }

    /// The name of the mode.
    pub fn to_string(&self) -> (s: String)
        ensures
            s@ == self.name(),
    {
        match self {
            Mode::Single => String::from_str("single"),
            Mode::Multi => String::from_str("multi"),
        }
    }
}

} // verus!
