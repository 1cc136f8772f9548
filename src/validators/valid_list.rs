use vstd::prelude::*;

use crate::error::{ConfigError, ErrorModel};
use crate::text::{contains, join, join_with, split, split_on, trim, trim_ws, views};
use crate::validators::valid_string::{bracketed, owned_strings, str_views, ValidString};
use crate::validators::Validator;

verus! {

/// A validator for comma-separated lists: it can forbid the empty list, always
/// forbids duplicate and empty items, and can restrict items to an allow-list.
#[derive(Clone, Debug)]
pub struct ValidList {
    valid_string: ValidString,
    is_empty_allowed: bool,
}

/// The model of a `ValidList`: its allow-list (empty: any item) and its empty-list policy.
pub struct ListRule {
    pub allowed: Seq<Seq<char>>,
    pub empty_allowed: bool,
}

/// The trimmed pieces of the trimmed value, split at each comma.
pub open spec fn list_pieces(value: Seq<char>) -> Seq<Seq<char>> {
    split_on(trim_ws(value), ',').map_values(|p: Seq<char>| trim_ws(p))
}

/// The items of a raw list value. A blank value, or a lone comma with blank sides,
/// is the empty list; any other value has one item per piece.
pub open spec fn list_items(value: Seq<char>) -> Seq<Seq<char>> {
    let p = list_pieces(value);
    if p.len() <= 2 && forall|i: int| 0 <= i < p.len() ==> #[trigger] p[i].len() == 0 {
        Seq::empty()
    } else {
        p
    }
}

/// Two positions of `xs` hold the same string.
pub open spec fn has_duplicates(xs: Seq<Seq<char>>) -> bool {
    exists|i: int, j: int| 0 <= i < j < xs.len() && xs[i] == xs[j]
}

pub open spec fn empty_list_message(name: Seq<char>, hint: Seq<char>) -> Seq<char> {
    "Configuration '"@ + name + "' must not be empty. Valid values include: "@ + hint
}

pub open spec fn duplicate_message(name: Seq<char>) -> Seq<char> {
    "Configuration '"@ + name + "' values must not be duplicated."@
}

pub open spec fn empty_item_message(name: Seq<char>) -> Seq<char> {
    "Configuration '"@ + name + "' values must not be empty."@
}

pub open spec fn not_allowed_message(
    item: Seq<char>,
    name: Seq<char>,
    allowed: Seq<Seq<char>>,
) -> Seq<char> {
    "Invalid value '"@ + item + "' for configuration '"@ + name + "': String must be one of: "@
        + join_with(allowed, ", "@)
}

/// The message for the first item of `xs` that is empty or outside a non-empty
/// allow-list, if there is one.
pub open spec fn item_problem(
    name: Seq<char>,
    xs: Seq<Seq<char>>,
    allowed: Seq<Seq<char>>,
) -> Option<Seq<char>>
    decreases xs.len(),
{
    if xs.len() == 0 {
        None
    } else if xs[0].len() == 0 {
        Some(empty_item_message(name))
    } else if allowed.len() > 0 && !allowed.contains(xs[0]) {
        Some(not_allowed_message(xs[0], name, allowed))
    } else {
        item_problem(name, xs.drop_first(), allowed)
    }
}

impl ListRule {
    /// The description of the rule: the allow-list and the empty-list policy.
    pub open spec fn description(self) -> Seq<char> {
        bracketed(self.allowed) + " (empty config "@ + (if self.empty_allowed {
            "empty config allowed"@
        } else {
            "empty not allowed"@
        }) + ")"@
    }

    /// What names the permitted values in the empty-list message.
    pub open spec fn hint(self) -> Seq<char> {
        if self.allowed.len() == 0 {
            "any non-empty value"@
        } else {
            self.description()
        }
    }

    /// The result of checking the raw value `value` of the key `name`: the
    /// empty-list policy first, then duplicates, then each item in order.
    pub open spec fn check(self, name: Seq<char>, value: Seq<char>) -> Result<(), ErrorModel> {
        let xs = list_items(value);
        if !self.empty_allowed && xs.len() == 0 {
            Err(
                ErrorModel::ValidationFailed {
                    name,
                    message: empty_list_message(name, self.hint()),
                },
            )
        } else if has_duplicates(xs) {
            Err(ErrorModel::ValidationFailed { name, message: duplicate_message(name) })
        } else {
            match item_problem(name, xs, self.allowed) {
                Some(message) => Err(ErrorModel::ValidationFailed { name, message }),
                None => Ok(()),
            }
        }
    }
}

impl View for ValidList {
    type V = ListRule;

    closed spec fn view(&self) -> ListRule {
        ListRule { allowed: self.valid_string@, empty_allowed: self.is_empty_allowed }
    }
}

/// The trimmed pieces of a raw list value.
pub fn list_pieces_of(value: &str) -> (r: Vec<String>)
    ensures
        views(r@) == list_pieces(value@),
{
    let parts = split(trim(value), ',');
    let ghost pieces = list_pieces(value@);
    let mut items: Vec<String> = Vec::new();
    let mut i: usize = 0;
    while i < parts.len()
        invariant
            i <= parts.len(),
            views(parts@) == split_on(trim_ws(value@), ','),
            pieces == list_pieces(value@),
            pieces.len() == parts.len(),
            views(items@) == pieces.take(i as int),
        decreases parts.len() - i,
    {
        let t = trim(parts[i].as_str());
        proof {
            assert(views(parts@)[i as int] == parts@[i as int]@);
            assert(t@ == pieces[i as int]);
        }
        let ghost before = items@;
        let owned = t.to_owned();
        items.push(owned);
        proof {
            assert(views(items@) =~= views(before).push(owned@));
            assert(pieces.take(i + 1) =~= pieces.take(i as int).push(pieces[i as int]));
        }
        i = i + 1;
    }
    proof {
        assert(pieces.take(parts.len() as int) =~= pieces);
    }
    items
}

/// The items of a raw list value.
pub fn list_items_of(value: &str) -> (r: Vec<String>)
    ensures
        views(r@) == list_items(value@),
{
    let pieces = list_pieces_of(value);
    let ghost p = list_pieces(value@);
    if pieces.len() > 2 {
        return pieces;
    }
    let mut i: usize = 0;
    while i < pieces.len()
        invariant
            i <= pieces.len(),
            pieces.len() <= 2,
            views(pieces@) == p,
            p == list_pieces(value@),
            forall|k: int| 0 <= k < i ==> #[trigger] p[k].len() == 0,
        decreases pieces.len() - i,
    {
        proof {
            assert(views(pieces@)[i as int] == pieces@[i as int]@);
        }
        if !pieces[i].as_str().is_empty() {
            return pieces;
        }
        i = i + 1;
    }
    let empty: Vec<String> = Vec::new();
    proof {
        assert(views(empty@) =~= Seq::<Seq<char>>::empty());
    }
    empty
}

/// Whether two positions of `xs` hold equal strings.
pub fn has_duplicate(xs: &Vec<String>) -> (r: bool)
    ensures
        r == has_duplicates(views(xs@)),
{
    let ghost v = views(xs@);
    let mut i: usize = 0;
    while i < xs.len()
        invariant
            i <= xs.len(),
            v == views(xs@),
            forall|a: int, b: int| 0 <= a < i && a < b < xs.len() ==> v[a] != v[b],
        decreases xs.len() - i,
    {
        let mut j: usize = i + 1;
        while j < xs.len()
            invariant
                i < j <= xs.len(),
                i < xs.len(),
                v == views(xs@),
                forall|a: int, b: int| 0 <= a < i && a < b < xs.len() ==> v[a] != v[b],
                forall|b: int| i < b < j ==> v[i as int] != v[b],
            decreases xs.len() - j,
        {
            if xs[i] == xs[j] {
                proof {
                    assert(v[i as int] == v[j as int]);
                }
                return true;
            }
            j = j + 1;
        }
        i = i + 1;
    }
    false
}

impl ValidList {
    fn new(valid_strings: Vec<String>, is_empty_allowed: bool) -> (r: Self)
        ensures
            r@ == (ListRule { allowed: views(valid_strings@), empty_allowed: is_empty_allowed }),
    {
        ValidList { valid_string: ValidString::in_list_owned(valid_strings), is_empty_allowed }
    }

    /// A validator that accepts any list without duplicate or empty items.
    pub fn any_non_duplicate_values(is_empty_allowed: bool) -> (r: Self)
        ensures
            r@ == (ListRule { allowed: Seq::empty(), empty_allowed: is_empty_allowed }),
    {
        let r = Self::new(Vec::new(), is_empty_allowed);
        proof {
            assert(r@.allowed =~= Seq::<Seq<char>>::empty());
        }
        r
    }

    /// A validator whose items must be among `valid_strings`; the empty list is allowed.
    pub fn in_list(valid_strings: &[&'static str]) -> (r: Self)
        ensures
            r@ == (ListRule { allowed: str_views(valid_strings@), empty_allowed: true }),
    {
        Self::new(owned_strings(valid_strings), true)
    }

    /// A validator whose items must be among `valid_strings`, with the given
    /// empty-list policy. Forbidding the empty list needs at least one valid string.
    pub fn in_list_allow_empty(is_empty_allowed: bool, valid_strings: &[&'static str]) -> (r: Self)
        requires
            is_empty_allowed || valid_strings@.len() > 0,
        ensures
            r@ == (ListRule {
                allowed: str_views(valid_strings@),
                empty_allowed: is_empty_allowed,
            }),
    {
        Self::new(owned_strings(valid_strings), is_empty_allowed)
    }

    /// The first problem with the items `xs`, as `item_problem` states it.
    fn first_item_problem(&self, name: &str, xs: &Vec<String>) -> (r: Option<String>)
        ensures
            match r {
                Some(m) => item_problem(name@, views(xs@), self@.allowed) == Some(m@),
                None => item_problem(name@, views(xs@), self@.allowed) is None,
            },
    {
        let allowed = self.valid_string.valid_strings();
        let ghost al = self@.allowed;
        let mut i: usize = 0;
        proof {
            assert(views(xs@).skip(0) =~= views(xs@));
        }
        while i < xs.len()
            invariant
                i <= xs.len(),
                views(allowed@) == al,
                al == self@.allowed,
                item_problem(name@, views(xs@), al) == item_problem(
                    name@,
                    views(xs@).skip(i as int),
                    al,
                ),
            decreases xs.len() - i,
        {
            let item = xs[i].as_str();
            proof {
                assert(views(xs@).skip(i as int)[0] == item@);
                assert(views(xs@).skip(i as int).drop_first() =~= views(xs@).skip(i + 1));
            }
            if item.is_empty() {
                let mut m = String::from_str("Configuration '");
                m.append(name);
                m.append("' values must not be empty.");
                return Some(m);
            }
            if allowed.len() > 0 && !contains(allowed, item) {
                let mut m = String::from_str("Invalid value '");
                m.append(item);
                m.append("' for configuration '");
                m.append(name);
                m.append("': String must be one of: ");
                let listed = join(allowed, ", ");
                m.append(listed.as_str());
                return Some(m);
            }
            i = i + 1;
        }
        proof {
            assert(views(xs@).skip(xs.len() as int) =~= Seq::<Seq<char>>::empty());
        }
        None
    }
}

impl Validator for ValidList {
    open spec fn outcome(&self, name: Seq<char>, value: Seq<char>) -> Result<(), ErrorModel> {
        self@.check(name, value)
    }

    open spec fn description(&self) -> Seq<char> {
        self@.description()
    }

    fn validate(&self, name: &str, value: &str) -> (r: Result<(), ConfigError>) {
        let items = list_items_of(value);
        if !self.is_empty_allowed && items.len() == 0 {
            let hint = if self.valid_string.valid_strings().len() == 0 {
                String::from_str("any non-empty value")
            } else {
                self.describe()
            };
            let mut message = String::from_str("Configuration '");
            message.append(name);
            message.append("' must not be empty. Valid values include: ");
            message.append(hint.as_str());
            return Err(ConfigError::ValidationFailed { name: name.to_owned(), message });
        }
        if has_duplicate(&items) {
            let mut message = String::from_str("Configuration '");
            message.append(name);
            message.append("' values must not be duplicated.");
            return Err(ConfigError::ValidationFailed { name: name.to_owned(), message });
        }
        match self.first_item_problem(name, &items) {
            Some(message) => Err(ConfigError::ValidationFailed { name: name.to_owned(), message }),
            None => Ok(()),
        }
    }

    fn describe(&self) -> (r: String) {
        let mut s = self.valid_string.describe();
        s.append(" (empty config ");
        if self.is_empty_allowed {
            s.append("empty config allowed");
        } else {
            s.append("empty not allowed");
        }
        s.append(")");
        s
    }
}

} // verus!
