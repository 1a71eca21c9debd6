//! What a new project starts from.

use crate::changelog::{
    change_types_from,
    get_settings_from_existing_changelog,
    settings_found,
};
use crate::config::{default_config, Config, ConfigView};
use crate::text::{lines_of, sorted_texts};
use vstd::prelude::*;
use vstd::string::*;

verus! {

/// The text of a changelog without releases.
pub open spec fn empty_changelog_text() -> Seq<char> {
    "<!--\nThis changelog was created using the `clu` binary\n(https://github.com/MalteHerrmann/changelog-utils).\n-->\n\n# Changelog\n\n## Unreleased\n"@
}

/// The skeleton of a changelog: a comment, the title and the unreleased
/// section.
pub fn create_empty_changelog() -> (s: String)
    ensures
        s@ == empty_changelog_text(),
{
    String::from_str(
        "<!--\nThis changelog was created using the `clu` binary\n(https://github.com/MalteHerrmann/changelog-utils).\n-->\n\n# Changelog\n\n## Unreleased\n",
    )
}

/// What a new project starts from, where its origin and its changelog, if
/// it has them, are known: the default configuration, with the origin as
/// the repository and with the categories and change types of the
/// changelog; and the skeleton of a changelog, if there is none yet.
pub fn init_settings(origin: Option<String>, changelog: Option<&str>) -> (r: (
    Config,
    Option<String>,
))
    ensures
        ({
            let begun = ConfigView {
                target_repo: match origin {
                    Some(address) => address@,
                    None => default_config().target_repo,
                },
                ..default_config()
            };
            match changelog {
                Some(contents) => {
                    let lines = lines_of(contents@);
                    let found = settings_found(begun, lines, lines.len());
                    &&& r.1 is None
                    &&& r.0@.change_types == change_types_from(found.0)
                    &&& r.0@.categories.to_multiset() == found.1.to_multiset()
                    &&& sorted_texts(r.0@.categories)
                    &&& r.0@ == (ConfigView {
                        categories: r.0@.categories,
                        change_types: r.0@.change_types,
                        ..begun
                    })
                },
                None => r.0@ == begun && r.1.deep_view() == Some(empty_changelog_text()),
            }
        }),
{
    let mut config = Config::default();
    match origin {
        Some(address) => {
            config.target_repo = address;
        },
        None => {},
    }
    match changelog {
        Some(contents) => {
            get_settings_from_existing_changelog(&mut config, contents);
            (config, None)
        },
        None => (config, Some(create_empty_changelog())),
    }
}

} // verus!
