//! Query arguments: the name/value pairs of a request's query string, read
//! as a mapping in which the last value given for a name wins.

use vstd::prelude::*;
use vstd::string::*;

verus! {

/// The (name, value) pairs that the `application/x-www-form-urlencoded`
/// syntax gives for `query`, in the order in which they stand, names and
/// values percent-decoded.
pub uninterp spec fn form_pairs(query: Seq<char>) -> Seq<(Seq<char>, Seq<char>)>;

/// The mapping that `pairs` describe when they are entered one after the
/// other: a later pair replaces an earlier one of the same name.
pub open spec fn map_of(pairs: Seq<(Seq<char>, Seq<char>)>) -> Map<Seq<char>, Seq<char>>
    decreases pairs.len(),
{
    if pairs.len() == 0 {
        Map::empty()
    } else {
        map_of(pairs.drop_last()).insert(pairs.last().0, pairs.last().1)
    }
}

/// The arguments that a query string holds; none where there is no query.
pub open spec fn args_of(query: Option<Seq<char>>) -> Map<Seq<char>, Seq<char>> {
    match query {
        Some(q) => map_of(form_pairs(q)),
        None => Map::empty(),
    }
}

/// The arguments of a request, by name.
#[derive(Debug, Clone, PartialEq, Eq)]
pub struct Args {
    pairs: Vec<(String, String)>,
}

impl View for Args {
    type V = Map<Seq<char>, Seq<char>>;

    closed spec fn view(&self) -> Map<Seq<char>, Seq<char>> {
        map_of(self.pairs.deep_view())
    }
}

/// Calls `url::form_urlencoded::parse` on the bytes of `query` and collects
/// the owned pairs that it yields, in order. They are named by `form_pairs`.
#[verifier::external_body]
fn parse_form(query: &str) -> (pairs: Vec<(String, String)>)
    ensures
        pairs.deep_view() == form_pairs(query@),
{
    url::form_urlencoded::parse(query.as_bytes()).into_owned().collect()
}

/// Pairs after the first `m` that do not carry `name` do not change what
/// the mapping says of `name`.
pub proof fn lemma_map_of_prefix(pairs: Seq<(Seq<char>, Seq<char>)>, name: Seq<char>, m: int)
    requires
        0 <= m <= pairs.len(),
        forall|j: int| m <= j < pairs.len() ==> (#[trigger] pairs[j]).0 != name,
    ensures
        map_of(pairs).contains_key(name) == map_of(pairs.take(m)).contains_key(name),
        map_of(pairs).contains_key(name) ==> map_of(pairs)[name] == map_of(pairs.take(m))[name],
    decreases pairs.len() - m,
{
    if m == pairs.len() {
        assert(pairs.take(m) =~= pairs);
    } else {
        assert(pairs.last().0 != name) by {
            assert(pairs[pairs.len() - 1].0 != name);
        }
        lemma_map_of_prefix(pairs.drop_last(), name, m);
        assert(pairs.drop_last().take(m) =~= pairs.take(m));
    }
}

impl Args {
    /// The arguments that `pairs` describe, the last value of a name winning.
    pub fn from_pairs(pairs: Vec<(String, String)>) -> (args: Args)
        ensures
            args@ == map_of(pairs.deep_view()),
    {
        Args { pairs }
    }

    /// The value of the argument `name`, if the request has one.
    pub fn get(&self, name: &str) -> (value: Option<&String>)
        ensures
            match value {
                Some(v) => self@.contains_key(name@) && self@[name@] == v@,
                None => !self@.contains_key(name@),
            },
    {
        let wanted: String = name.to_owned();
        let ghost all = self.pairs.deep_view();
        let mut i: usize = self.pairs.len();
        while i > 0
            invariant
                i <= self.pairs.len(),
                all == self.pairs.deep_view(),
                wanted@ == name@,
                forall|j: int| i <= j < all.len() ==> (#[trigger] all[j]).0 != name@,
            decreases i,
        {
            i -= 1;
            if self.pairs[i].0 == wanted {
                proof {
                    lemma_map_of_prefix(all, name@, i + 1);
                    assert(all.take(i + 1).drop_last() =~= all.take(i as int));
                    assert(all.take(i + 1).last() == all[i as int]);
                    assert(all[i as int] == (self.pairs@[i as int].0@, self.pairs@[i as int].1@));
                }
                return Some(&self.pairs[i].1);
            }
            assert(all[i as int].0 == self.pairs@[i as int].0@);
        }
        proof {
            lemma_map_of_prefix(all, name@, 0);
            assert(all.take(0) =~= Seq::<(Seq<char>, Seq<char>)>::empty());
        }
        None
    }
}

/// Reads the arguments out of a request's query string.
pub fn extract_args(query: Option<&str>) -> (args: Args)
    ensures
        args@ == args_of(
            match query {
                Some(q) => Some(q@),
                None => None,
            },
        ),
{
    match query {
        Some(q) => Args::from_pairs(parse_form(q)),
        None => {
            let none: Vec<(String, String)> = Vec::new();
            assert(none.deep_view() =~= Seq::<(Seq<char>, Seq<char>)>::empty());
            Args::from_pairs(none)
        },
    }
}

} // verus!
