//! The configuration tree: a generic hierarchical value produced by parsing
//! a structured config file, and dot-path resolution over it.
use vstd::prelude::*;

verus! {

/// One node of a configuration tree: a scalar, a sequence of nodes, or a
/// mapping from string keys to nodes. Trees are immutable snapshots with no
/// identity beyond structural equality.
#[derive(Debug)]
pub enum Node {
    Null,
    Bool(bool),
    Int(i64),
    Str(String),
    Sequence(Vec<Node>),
    Mapping(Vec<(String, Node)>),
}

/// Narrows a resolved node to a string scalar. Any node other than a string
/// scalar has no string representation: numbers and booleans are not
/// stringified.
pub trait ConfigValue {
    /// The string content this value narrows to, if any.
    spec fn str_form(&self) -> Option<Seq<char>>;

    fn to_str(&self) -> (r: Option<String>)
        ensures
            r is Some <==> self.str_form() is Some,
            r matches Some(s) ==> s@ == self.str_form()->0,
    ;
}

impl ConfigValue for Node {
    open spec fn str_form(&self) -> Option<Seq<char>> {
        match self {
            Node::Str(s) => Some(s@),
            _ => None,
        }
    }

    fn to_str(&self) -> (r: Option<String>) {
        match self {
            Node::Str(s) => {
                let c = s.clone();
                proof {
                    assert(c@ == s@);
                    assert(self.str_form() is Some);
                    assert(self.str_form()->0 == s@);
                }
                Some(c)
            },
            _ => {
                proof {
                    assert(self.str_form() is None);
                }
                None
            },
        }
    }
}

/// The mathematical shape of a tree node: the same structure over views
/// alone, so contracts can name a snapshot as one pure value.
pub ghost enum TreeShape {
    Null,
    Bool(bool),
    Int(int),
    Str(Seq<char>),
    Sequence(Seq<TreeShape>),
    Mapping(Seq<(Seq<char>, TreeShape)>),
}

impl Node {
    /// The shape of this node.
    pub open spec fn shape(self) -> TreeShape
        decreases self,
    {
        match self {
            Node::Null => TreeShape::Null,
            Node::Bool(b) => TreeShape::Bool(b),
            Node::Int(i) => TreeShape::Int(i as int),
            Node::Str(s) => TreeShape::Str(s@),
            Node::Sequence(items) => TreeShape::Sequence(shape_items(items@)),
            Node::Mapping(entries) => TreeShape::Mapping(shape_entries(entries@)),
        }
    }
}

/// The shapes of a list of sequence elements.
pub open spec fn shape_items(items: Seq<Node>) -> Seq<TreeShape>
    decreases items,
{
    if items.len() == 0 {
        Seq::empty()
    } else {
        seq![items[0].shape()] + shape_items(items.drop_first())
    }
}

/// The shapes of a list of mapping entries, keys as views.
pub open spec fn shape_entries(entries: Seq<(String, Node)>) -> Seq<(Seq<char>, TreeShape)>
    decreases entries,
{
    if entries.len() == 0 {
        Seq::empty()
    } else {
        seq![(entries[0].0@, entries[0].1.shape())] + shape_entries(entries.drop_first())
    }
}

/// Character-for-character string equality.
pub fn str_eq(a: &str, b: &str) -> (r: bool)
    ensures
        r == (a@ == b@),
{
    let an = a.unicode_len();
    let bn = b.unicode_len();
    if an != bn {
        return false;
    }
    let mut i: usize = 0;
    while i < an
        invariant
            i <= an,
            an == a@.len(),
            an == b@.len(),
            forall|j: int| 0 <= j < i ==> a@[j] == b@[j],
        decreases an - i,
    {
        if a.get_char(i) != b.get_char(i) {
            return false;
        }
        i += 1;
    }
    proof {
        assert(a@ =~= b@);
    }
    true
}

/// The segments of a dotted path, split on every `'.'`. An empty path yields
/// one empty segment; a trailing or doubled dot yields an empty segment too.
pub open spec fn split_dots(s: Seq<char>) -> Seq<Seq<char>>
    decreases s.len(),
{
    if s.len() == 0 {
        seq![Seq::<char>::empty()]
    } else if s[0] == '.' {
        seq![Seq::<char>::empty()] + split_dots(s.drop_first())
    } else {
        let rest = split_dots(s.drop_first());
        seq![seq![s[0]] + rest[0]] + rest.drop_first()
    }
}

pub proof fn lemma_split_dots_len(s: Seq<char>)
    ensures
        split_dots(s).len() >= 1,
    decreases s.len(),
{
    if s.len() != 0 && s[0] != '.' {
        lemma_split_dots_len(s.drop_first());
    }
}

/// A path without dots is a single segment: the path itself.
pub proof fn lemma_split_dots_no_dot(s: Seq<char>)
    requires
        forall|j: int| 0 <= j < s.len() ==> s[j] != '.',
    ensures
        split_dots(s) =~~= seq![s],
    decreases s.len(),
{
    if s.len() == 0 {
        assert(split_dots(s) =~~= seq![s]);
    } else {
        lemma_split_dots_no_dot(s.drop_first());
        assert(seq![s[0]] + s.drop_first() =~= s);
        assert(split_dots(s) =~~= seq![s]);
    }
}

/// Splitting at the first dot: the part before it is the first segment, and
/// the rest of the path splits independently.
pub proof fn lemma_split_dots_first(s: Seq<char>, i: int)
    requires
        0 <= i < s.len(),
        s[i] == '.',
        forall|j: int| 0 <= j < i ==> s[j] != '.',
    ensures
        split_dots(s) =~~= seq![s.take(i)] + split_dots(s.skip(i + 1)),
    decreases i,
{
    lemma_split_dots_len(s.skip(i + 1));
    if i == 0 {
        assert(s.drop_first() =~= s.skip(1));
        assert(s.take(0) =~= Seq::<char>::empty());
    } else {
        let t = s.drop_first();
        lemma_split_dots_first(t, i - 1);
        lemma_split_dots_len(t.skip(i));
        assert(t.skip(i) =~= s.skip(i + 1));
        assert(seq![s[0]] + t.take(i - 1) =~= s.take(i));
        assert(split_dots(t) =~~= seq![t.take(i - 1)] + split_dots(s.skip(i + 1)));
        assert(split_dots(s) =~~= seq![s.take(i)] + split_dots(s.skip(i + 1)));
    }
}

/// Splits a dotted path such as `log.level` into its segment names.
pub fn split_path(s: &str) -> (segs: Vec<String>)
    ensures
        segs@.map_values(|t: String| t@) == split_dots(s@),
    decreases s@.len(),
{
    let n = s.unicode_len();
    let mut i: usize = 0;
    while i < n && s.get_char(i) != '.'
        invariant
            i <= n,
            n == s@.len(),
            forall|j: int| 0 <= j < i ==> s@[j] != '.',
        decreases n - i,
    {
        i += 1;
    }
    if i == n {
        let mut segs: Vec<String> = Vec::new();
        segs.push(s.to_owned());
        proof {
            lemma_split_dots_no_dot(s@);
            assert(segs@.map_values(|t: String| t@) =~= split_dots(s@));
        }
        segs
    } else {
        let head = s.substring_char(0, i).to_owned();
        let rest = s.substring_char(i + 1, n);
        let mut segs = split_path(rest);
        segs.insert(0, head);
        proof {
            lemma_split_dots_first(s@, i as int);
            assert(head@ == s@.take(i as int));
            assert(segs@.map_values(|t: String| t@) =~= split_dots(s@));
        }
        segs
    }
}

/// The node under `key` in a list of mapping entries: the first entry whose
/// key has the same characters.
pub open spec fn map_lookup(entries: Seq<(String, Node)>, key: Seq<char>) -> Option<Node>
    decreases entries.len(),
{
    if entries.len() == 0 {
        None
    } else if entries[0].0@ == key {
        Some(entries[0].1)
    } else {
        map_lookup(entries.drop_first(), key)
    }
}

/// Dot-path resolution: descend into mapping entries keyed by each segment in
/// order. An empty segment list returns the current node. Resolution fails
/// softly when a segment is missing or when segments remain at a non-mapping
/// node.
pub open spec fn lookup(n: Node, keys: Seq<Seq<char>>) -> Option<Node>
    decreases keys.len(),
{
    if keys.len() == 0 {
        Some(n)
    } else {
        match n {
            Node::Mapping(entries) => match map_lookup(entries@, keys[0]) {
                Some(child) => lookup(child, keys.drop_first()),
                None => None,
            },
            _ => None,
        }
    }
}

/// Borrows the node under `key` from a list of mapping entries.
pub fn mapping_get<'a>(entries: &'a Vec<(String, Node)>, key: &str) -> (r: Option<&'a Node>)
    ensures
        match r {
            Some(n) => map_lookup(entries@, key@) == Some(*n),
            None => map_lookup(entries@, key@) is None,
        },
{
    proof {
        assert(entries@.skip(0) =~= entries@);
    }
    let mut j: usize = 0;
    while j < entries.len()
        invariant
            j <= entries@.len(),
            map_lookup(entries@, key@) == map_lookup(entries@.skip(j as int), key@),
        decreases entries@.len() - j,
    {
        let hit = str_eq(entries[j].0.as_str(), key);
        proof {
            assert(entries@.skip(j as int).len() > 0);
            assert(entries@.skip(j as int)[0] == entries@[j as int]);
        }
        if hit {
            return Some(&entries[j].1);
        }
        proof {
            assert(entries@.skip(j as int).drop_first() =~= entries@.skip(j as int + 1));
        }
        j += 1;
    }
    proof {
        assert(entries@.skip(j as int) =~= Seq::<(String, Node)>::empty());
    }
    None
}

/// Moves the node under `key` out of a list of mapping entries.
#[verifier::loop_isolation(false)]
fn mapping_take(entries: &mut Vec<(String, Node)>, key: &String) -> (r: Option<Node>)
    ensures
        r == map_lookup(old(entries)@, key@),
{
    let ghost e0 = entries@;
    proof {
        assert(e0.skip(0) =~= e0);
    }
    let mut j: usize = 0;
    while j < entries.len()
        invariant
            entries@ == e0,
            j <= e0.len(),
            map_lookup(e0, key@) == map_lookup(e0.skip(j as int), key@),
        decreases e0.len() - j,
    {
        let hit = str_eq(entries[j].0.as_str(), key.as_str());
        proof {
            assert(e0.skip(j as int).len() > 0);
            assert(e0.skip(j as int)[0] == e0[j as int]);
        }
        if hit {
            proof {
                assert(map_lookup(e0.skip(j as int), key@) == Some(e0[j as int].1));
            }
            let pair = entries.remove(j);
            return Some(pair.1);
        }
        proof {
            assert(e0.skip(j as int).drop_first() =~= e0.skip(j as int + 1));
        }
        j += 1;
    }
    proof {
        assert(e0.skip(j as int) =~= Seq::<(String, Node)>::empty());
    }
    None
}

/// Resolves a pre-split dot-path against a tree, handing back the reachable
/// subtree, or nothing when a segment is missing or segments remain at a
/// non-mapping node.
#[verifier::loop_isolation(false)]
pub fn resolve(current: Node, keys: &Vec<String>) -> (r: Option<Node>)
    ensures
        r == lookup(current, keys@.map_values(|k: String| k@)),
{
    let ghost all = keys@.map_values(|k: String| k@);
    let ghost orig = current;
    proof {
        assert(all.skip(0) =~= all);
    }
    let mut node = current;
    let mut i: usize = 0;
    loop
        invariant
            i <= keys@.len(),
            all == keys@.map_values(|k: String| k@),
            lookup(orig, all) == lookup(node, all.skip(i as int)),
        decreases keys@.len() - i,
    {
        if i == keys.len() {
            proof {
                assert(all.skip(i as int) =~= Seq::<Seq<char>>::empty());
            }
            return Some(node);
        }
        proof {
            assert(all.skip(i as int).len() > 0);
            assert(all.skip(i as int)[0] == keys@[i as int]@);
        }
        let mut entries = match node {
            Node::Mapping(e) => e,
            _ => {
                return None;
            },
        };
        match mapping_take(&mut entries, &keys[i]) {
            Some(child) => {
                proof {
                    assert(all.skip(i as int).drop_first() =~= all.skip(i as int + 1));
                }
                node = child;
                i += 1;
            },
            None => {
                return None;
            },
        }
    }
}

/// The shape under `key` in shaped mapping entries: the first entry whose
/// key is `key`.
pub open spec fn shape_map_lookup(entries: Seq<(Seq<char>, TreeShape)>, key: Seq<char>) -> Option<
    TreeShape,
>
    decreases entries.len(),
{
    if entries.len() == 0 {
        None
    } else if entries[0].0 == key {
        Some(entries[0].1)
    } else {
        shape_map_lookup(entries.drop_first(), key)
    }
}

/// Dot-path resolution over shapes, mirroring `lookup` node for node.
pub open spec fn shape_lookup(t: TreeShape, keys: Seq<Seq<char>>) -> Option<TreeShape>
    decreases keys.len(),
{
    if keys.len() == 0 {
        Some(t)
    } else {
        match t {
            TreeShape::Mapping(entries) => match shape_map_lookup(entries, keys[0]) {
                Some(child) => shape_lookup(child, keys.drop_first()),
                None => None,
            },
            _ => None,
        }
    }
}

/// Entry lookup and taking shapes commute.
pub proof fn lemma_map_lookup_shape(entries: Seq<(String, Node)>, key: Seq<char>)
    ensures
        match map_lookup(entries, key) {
            Some(m) => shape_map_lookup(shape_entries(entries), key) == Some(m.shape()),
            None => shape_map_lookup(shape_entries(entries), key) is None,
        },
    decreases entries.len(),
{
    if entries.len() != 0 {
        assert(shape_entries(entries)[0] == (entries[0].0@, entries[0].1.shape()));
        assert(shape_entries(entries).drop_first() =~= shape_entries(entries.drop_first()));
        if entries[0].0@ != key {
            lemma_map_lookup_shape(entries.drop_first(), key);
        }
    }
}

/// Resolution and taking shapes commute: what a path resolves to in a tree
/// is, shape for shape, what it resolves to in the tree's shape.
pub proof fn lemma_lookup_shape(n: Node, keys: Seq<Seq<char>>)
    ensures
        match lookup(n, keys) {
            Some(m) => shape_lookup(n.shape(), keys) == Some(m.shape()),
            None => shape_lookup(n.shape(), keys) is None,
        },
    decreases keys.len(),
{
    if keys.len() != 0 {
        match n {
            Node::Mapping(entries) => {
                lemma_map_lookup_shape(entries@, keys[0]);
                match map_lookup(entries@, keys[0]) {
                    Some(child) => {
                        lemma_lookup_shape(child, keys.drop_first());
                    },
                    None => {},
                }
            },
            _ => {},
        }
    }
}

} // verus!
