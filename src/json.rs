use vstd::prelude::*;

verus! {

/// A JSON value, as the codec reads and writes it.
///
/// Objects keep their members in order. The codec looks a key up by its first
/// occurrence and never writes a key twice.
#[derive(Debug, PartialEq, Eq)]
pub enum Json {
    Null,
    Bool(bool),
    /// A number that is a non-negative integer of at most 64 bits.
    UInt(u64),
    /// Any other number, kept as its JSON text.
    OtherNumber(String),
    Str(String),
    Array(Vec<Json>),
    Object(Vec<(String, Json)>),
}

/// `j` is the JSON string `s`.
pub open spec fn is_str(j: Json, s: Seq<char>) -> bool {
    j matches Json::Str(t) && t@ == s
}

/// The value of the first member of `fields` whose key is `key`.
pub open spec fn member(fields: Seq<(String, Json)>, key: Seq<char>) -> Option<Json>
    decreases fields.len(),
{
    if fields.len() == 0 {
        None
    } else if fields[0].0@ == key {
        Some(fields[0].1)
    } else {
        member(fields.drop_first(), key)
    }
}

/// The member of `key` is the one at `i` when `key` first occurs there.
pub proof fn lemma_member_at(fields: Seq<(String, Json)>, key: Seq<char>, i: int)
    requires
        0 <= i < fields.len(),
        fields[i].0@ == key,
        forall|k: int| 0 <= k < i ==> fields[k].0@ != key,
    ensures
        member(fields, key) == Some(fields[i].1),
    decreases i,
{
    if i > 0 {
        lemma_member_at(fields.drop_first(), key, i - 1);
    }
}

/// A key that does not occur has no member.
pub proof fn lemma_member_absent(fields: Seq<(String, Json)>, key: Seq<char>)
    requires
        forall|k: int| 0 <= k < fields.len() ==> fields[k].0@ != key,
    ensures
        member(fields, key) is None,
    decreases fields.len(),
{
    if fields.len() > 0 {
        lemma_member_absent(fields.drop_first(), key);
    }
}

/// The position of the first member of `fields` whose key is `key`.
pub fn find_member(fields: &Vec<(String, Json)>, key: &String) -> (r: Option<usize>)
    ensures
        match r {
            Some(i) => i < fields@.len() && member(fields@, key@) == Some(fields@[i as int].1),
            None => member(fields@, key@) is None,
        },
{
    let n = fields.len();
    let mut i: usize = 0;
    assert(fields@.subrange(0, n as int) =~= fields@);
    while i < n
        invariant
            n == fields@.len(),
            i <= n,
            member(fields@, key@) == member(fields@.subrange(i as int, n as int), key@),
        decreases n - i,
    {
        let ghost rest = fields@.subrange(i as int, n as int);
        if fields[i].0 == *key {
            return Some(i);
        }
        assert(rest.drop_first() =~= fields@.subrange(i + 1, n as int));
        i = i + 1;
    }
    None
}

} // verus!
