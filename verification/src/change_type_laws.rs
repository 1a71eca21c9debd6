//! What holds of the reading of change type headers, whatever the line.

use crate::change_type::{change_type_name, change_type_of, known_change_type};
use crate::config::ConfigView;
use crate::text::{has_at, is_space, lemma_run_end, lemma_run_is, run_end, Class};
use crate::text_laws::lemma_stretch_is;
use vstd::prelude::*;

verus! {

/// Whether `s` is the canonical header of a change type with the given
/// name, character by character.
pub open spec fn is_change_type_text(s: Seq<char>, name: Seq<char>) -> bool {
    &&& s.len() == 4 + name.len()
    &&& s[0] == '#' && s[1] == '#' && s[2] == '#' && s[3] == ' '
    &&& forall|i: int| 0 <= i < name.len() ==> s[4 + i] == #[trigger] name[i]
}

/// The canonical header of a change type, character by character.
pub proof fn lemma_change_type_text_chars(name: Seq<char>)
    ensures
        is_change_type_text("### "@ + name, name),
{
    reveal_strlit("### ");
}

/// Whether a name is one that the grammar of change type headers finds
/// again behind `### `: letters, digits, hyphens and spaces, at least one,
/// and no space first.
pub open spec fn name_of_change_type(name: Seq<char>) -> bool {
    &&& name.len() > 0
    &&& name[0] != ' '
    &&& forall|i: int| 0 <= i < name.len() ==> Class::Name.holds(#[trigger] name[i])
}

/// The grammar reads the canonical header of a change type as its name.
pub proof fn lemma_change_type_text_read(s: Seq<char>, name: Seq<char>)
    requires
        is_change_type_text(s, name),
        name_of_change_type(name),
    ensures
        change_type_name(s) == Some(name),
{
    reveal_strlit("###");
    let n = s.len() as int;
    assert(run_end(s, 0, Class::Space) == 0) by {
        lemma_run_is(s, 0, 0, Class::Space);
    }
    assert(has_at(s, 0, "###"@)) by {
        lemma_stretch_is(s, 0, "###"@);
    }
    assert(run_end(s, 3, Class::Space) == 4) by {
        assert(s[4 + 0int] == name[0]);
        assert(Class::Name.holds(name[0]));
        lemma_run_is(s, 3, 4, Class::Space);
    }
    assert(run_end(s, 4, Class::Name) == n) by {
        assert forall|x: int| 4 <= x < n implies Class::Name.holds(#[trigger] s[x]) by {
            assert(s[4 + (x - 4)] == name[x - 4]);
        }
        lemma_run_is(s, 4, n, Class::Name);
    }
    assert(run_end(s, n, Class::Space) == n) by {
        lemma_run_is(s, n, n, Class::Space);
    }
    lemma_stretch_is(s, 4, name);
}

/// The name that the grammar finds in a change type header is one that it
/// finds again.
pub proof fn lemma_typed_name(line: Seq<char>)
    requires
        change_type_name(line) is Some,
    ensures
        name_of_change_type(change_type_name(line)->0),
{
    let name = change_type_name(line)->0;
    let hashes = run_end(line, 0, Class::Space);
    let from = run_end(line, hashes + 3, Class::Space);
    lemma_run_end(line, hashes + 3, Class::Space);
    lemma_run_end(line, from, Class::Name);
    assert(name[0] == line[from + 0]);
    assert(!is_space(line[from]));
    assert forall|i: int| 0 <= i < name.len() implies Class::Name.holds(#[trigger] name[i]) by {
        assert(name[i] == line[from + i]);
    }
}

/// Whether the header of a change type is one whose fix is final: where
/// its name belongs to a configured change type, the name of that one is a
/// name that the grammar finds again, and belongs to a change type of the
/// same name.
pub open spec fn settled_change_type(config: ConfigView, line: Seq<char>) -> bool {
    &&& change_type_of(config, line) is Ok
    &&& match known_change_type(
        config.change_types,
        change_type_name(line)->0,
        config.change_types.len(),
    ) {
        Ok(Some(i)) => {
            let long = config.change_types[i].long;
            &&& name_of_change_type(long)
            &&& match known_change_type(config.change_types, long, config.change_types.len()) {
                Ok(Some(j)) => config.change_types[j].long == long,
                _ => false,
            }
        },
        _ => true,
    }
}

/// A text that is, character by character, the canonical header of a
/// change type with a settled name is read as that change type, and the
/// canonical header is its fixed header.
pub proof fn lemma_change_type_text_of(config: ConfigView, s: Seq<char>, name: Seq<char>)
    requires
        is_change_type_text(s, name),
        name_of_change_type(name),
        match known_change_type(config.change_types, name, config.change_types.len()) {
            Ok(Some(j)) => config.change_types[j].long == name,
            Ok(None) => true,
            Err(_) => false,
        },
    ensures
        change_type_of(config, s) is Ok,
        change_type_of(config, s)->Ok_0.name == name,
        change_type_of(config, s)->Ok_0.fixed == "### "@ + name,
{
    lemma_change_type_text_read(s, name);
}

/// Fixing the header of a change type twice is fixing it once: the fixed
/// header of a settled change type is read as a header again, of the same
/// name, and is its own fixed header.
pub proof fn lemma_change_type_fix_is_final(config: ConfigView, line: Seq<char>)
    requires
        settled_change_type(config, line),
    ensures
        ({
            let c = change_type_of(config, line)->Ok_0;
            let again = change_type_of(config, c.fixed);
            &&& again is Ok
            &&& again->Ok_0.fixed == c.fixed
            &&& again->Ok_0.name == c.name
        }),
{
    let c = change_type_of(config, line)->Ok_0;
    lemma_typed_name(line);
    lemma_change_type_text_chars(c.name);
    lemma_change_type_text_of(config, c.fixed, c.name);
}

} // verus!
