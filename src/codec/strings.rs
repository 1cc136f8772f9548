//! The textual value types: strings, comma-separated lists, and secrets.
use vstd::prelude::*;

use crate::codec::ConfigValue;
use crate::error::ConfigError;
use crate::text::{
    is_ws, join, join_with, lemma_join_first, lemma_split_join, lemma_split_nonempty,
    lemma_trim_chars, lemma_trim_ends, lemma_trim_idem, lemma_trim_noop, split_on, trim, trim_ws,
    views,
};
use crate::validators::valid_list::{list_pieces, list_pieces_of};

verus! {

/// A secret value. Its canonical string is the real value, so that it can be
/// validated; `to_string` shows only a placeholder.
#[derive(Clone, PartialEq, Eq)]
pub struct Password {
    password: String,
}

impl DeepView for Password {
    type V = Seq<char>;

    closed spec fn deep_view(&self) -> Seq<char> {
        self.password@
    }
}

impl Password {
    pub fn new(password: String) -> (r: Self)
        ensures
            r.deep_view() == password@,
    {
        Password { password }
    }

    /// The real value.
    pub fn password(&self) -> (r: &str)
        ensures
            r@ == self.deep_view(),
    {
        self.password.as_str()
    }

    /// The form for logs and other human-facing output, which never shows the value.
    pub fn to_string(&self) -> (r: String)
        ensures
            r@ == "[hidden]"@,
    {
        String::from_str("[hidden]")
    }
}

/// The character models of a vector of strings, as `deep_view` gives them.
pub proof fn lemma_deep_view_strings(v: Vec<String>)
    ensures
        v.deep_view() == views(v@),
{
    assert(v.deep_view() =~= views(v@));
}

impl ConfigValue for String {
    open spec fn parsed(s: Seq<char>) -> Option<Seq<char>> {
        Some(trim_ws(s))
    }

    open spec fn parse_error(s: Seq<char>) -> Seq<char> {
        Seq::empty()
    }

    open spec fn config_text(v: Seq<char>) -> Seq<char> {
        v
    }

    fn parse(key: &str, value_str: &str) -> (r: Result<String, ConfigError>) {
        Ok(trim(value_str).to_owned())
    }

    fn to_config_string(&self) -> (r: String) {
        self.clone()
    }
}

impl ConfigValue for Password {
    open spec fn parsed(s: Seq<char>) -> Option<Seq<char>> {
        Some(trim_ws(s))
    }

    open spec fn parse_error(s: Seq<char>) -> Seq<char> {
        Seq::empty()
    }

    open spec fn config_text(v: Seq<char>) -> Seq<char> {
        v
    }

    fn parse(key: &str, value_str: &str) -> (r: Result<Password, ConfigError>) {
        Ok(Password::new(trim(value_str).to_owned()))
    }

    fn to_config_string(&self) -> (r: String) {
        self.password.clone()
    }
}

/// Round-trip stability of strings: reading the canonical string of the value
/// read from `s` gives the same value again.
pub proof fn string_round_trip(s: Seq<char>)
    ensures
        <String as ConfigValue>::parsed(
            <String as ConfigValue>::config_text(<String as ConfigValue>::parsed(s)->Some_0),
        ) == <String as ConfigValue>::parsed(s),
{
    lemma_trim_idem(s);
}

/// Round-trip stability of secrets: reading the canonical string of the value
/// read from `s` gives the same value again.
pub proof fn password_round_trip(s: Seq<char>)
    ensures
        <Password as ConfigValue>::parsed(
            <Password as ConfigValue>::config_text(<Password as ConfigValue>::parsed(s)->Some_0),
        ) == <Password as ConfigValue>::parsed(s),
{
    lemma_trim_idem(s);
}

/// What a list field reads: the empty list from blank text, else the trimmed
/// pieces between commas.
pub open spec fn list_parsed(s: Seq<char>) -> Seq<Seq<char>> {
    if trim_ws(s).len() == 0 {
        Seq::empty()
    } else {
        list_pieces(s)
    }
}

impl ConfigValue for Vec<String> {
    open spec fn parsed(s: Seq<char>) -> Option<Seq<Seq<char>>> {
        Some(list_parsed(s))
    }

    open spec fn parse_error(s: Seq<char>) -> Seq<char> {
        Seq::empty()
    }

    open spec fn config_text(v: Seq<Seq<char>>) -> Seq<char> {
        join_with(v, ","@)
    }

    fn parse(key: &str, value_str: &str) -> (r: Result<Vec<String>, ConfigError>) {
        let r = if trim(value_str).is_empty() {
            Vec::new()
        } else {
            list_pieces_of(value_str)
        };
        proof {
            lemma_deep_view_strings(r);
            assert(views(r@) =~= list_parsed(value_str@));
        }
        Ok(r)
    }

    fn to_config_string(&self) -> (r: String) {
        proof {
            lemma_deep_view_strings(*self);
        }
        join(self, ",")
    }
}

/// Round-trip stability of lists: reading the canonical string of the list read
/// from `s` gives the same list again.
pub proof fn list_round_trip(s: Seq<char>)
    ensures
        <Vec<String> as ConfigValue>::parsed(
            <Vec<String> as ConfigValue>::config_text(
                <Vec<String> as ConfigValue>::parsed(s)->Some_0,
            ),
        ) == <Vec<String> as ConfigValue>::parsed(s),
{
    reveal_strlit(",");
    let sep = seq![','];
    assert(","@ =~= sep);
    let t = trim_ws(s);
    lemma_trim_idem(s);
    if t.len() == 0 {
        let j = join_with(Seq::<Seq<char>>::empty(), sep);
        assert(j =~= Seq::<char>::empty());
        lemma_trim_noop(j);
    } else {
        let parts = split_on(t, ',');
        let xs = list_pieces(s);
        lemma_split_nonempty(t, ',');
        assert forall|i: int| 0 <= i < xs.len() implies !(#[trigger] xs[i]).contains(',')
            && trim_ws(xs[i]) == xs[i] by {
            assert(xs[i] == trim_ws(parts[i]));
            lemma_trim_idem(parts[i]);
            if xs[i].contains(',') {
                lemma_trim_chars(parts[i], ',');
            }
        }
        let j = join_with(xs, sep);
        lemma_join_first(xs, sep);
        lemma_trim_ends(parts[0]);
        assert(xs[0] == trim_ws(parts[0]));
        if xs.len() == 1 {
            assert(parts[0] == t);
        }
        let last = xs.len() - 1;
        assert(xs[last] == trim_ws(parts[last]));
        lemma_trim_ends(parts[last]);
        assert(j.len() > 0);
        assert(!is_ws(j[0]));
        assert(!is_ws(j.last())) by {
            if xs.len() >= 2 {
                assert(j == join_with(xs.drop_last(), sep) + sep + xs.last());
            }
        }
        lemma_trim_noop(j);
        lemma_split_join(xs, ',');
        assert(split_on(j, ',').map_values(|p: Seq<char>| trim_ws(p)) =~= xs);
    }
}

} // verus!
