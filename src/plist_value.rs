use vstd::prelude::*;

verus! {

/// A property-list value as plain data: the shapes that the identity
/// service's answers and the decrypted profile are made of.
#[derive(Debug)]
pub enum PlistValue {
    String(String),
    Integer(i64),
    Boolean(bool),
    Data(Vec<u8>),
    Array(Vec<PlistValue>),
    Dictionary(Vec<PlistEntry>),
    Other,
}

/// One key and its value in a property-list dictionary.
#[derive(Debug)]
pub struct PlistEntry {
    pub key: String,
    pub value: PlistValue,
}

/// The value stored under `key` in the dictionary entries `d` (the first
/// entry with that key).
pub open spec fn lookup(d: Seq<PlistEntry>, key: Seq<char>) -> Option<PlistValue>
    decreases d.len(),
{
    if d.len() == 0 {
        None
    } else if d[0].key@ == key {
        Some(d[0].value)
    } else {
        lookup(d.drop_first(), key)
    }
}

/// The text stored under `key` in `d`, if that value is a string.
pub open spec fn lookup_string(d: Seq<PlistEntry>, key: Seq<char>) -> Option<Seq<char>> {
    match lookup(d, key) {
        Some(PlistValue::String(s)) => Some(s@),
        _ => None,
    }
}

/// The entries of the dictionary stored under `key` in `d`, if that value is
/// a dictionary.
pub open spec fn lookup_dict(d: Seq<PlistEntry>, key: Seq<char>) -> Option<
    Seq<PlistEntry>,
> {
    match lookup(d, key) {
        Some(PlistValue::Dictionary(e)) => Some(e@),
        _ => None,
    }
}

/// The value stored under `key` in the dictionary entries `d`.
pub fn dict_get<'a>(d: &'a Vec<PlistEntry>, key: &str) -> (r: Option<&'a PlistValue>)
    ensures
        match r {
            Some(v) => lookup(d@, key@) == Some(*v),
            None => lookup(d@, key@) is None,
        },
{
    let k = key.to_owned();
    let mut i: usize = 0;
    assert(d@.subrange(0, d@.len() as int) =~= d@);
    while i < d.len()
        invariant
            i <= d@.len(),
            k@ == key@,
            lookup(d@, key@) == lookup(d@.subrange(i as int, d@.len() as int), key@),
        decreases d@.len() - i,
    {
        let ghost rest = d@.subrange(i as int, d@.len() as int);
        assert(rest[0] == d@[i as int]);
        if d[i].key.eq(&k) {
            return Some(&d[i].value);
        }
        assert(rest.drop_first() =~= d@.subrange(i + 1, d@.len() as int));
        i = i + 1;
    }
    None
}


/// Takes the value stored under `key` out of the dictionary `entries`.
pub fn dict_take(entries: Vec<PlistEntry>, key: &str) -> (r: Option<PlistValue>)
    ensures
        r == lookup(entries@, key@),
{
    let k = key.to_owned();
    let ghost all = entries@;
    let mut d = entries;
    let mut i: usize = 0;
    assert(all.subrange(0, all.len() as int) =~= all);
    while i < d.len()
        invariant
            d@ == all,
            all == entries@,
            i <= all.len(),
            k@ == key@,
            lookup(all, key@) == lookup(all.subrange(i as int, all.len() as int), key@),
        decreases all.len() - i,
    {
        let ghost rest = all.subrange(i as int, all.len() as int);
        assert(rest[0] == all[i as int]);
        if d[i].key.eq(&k) {
            let e = d.remove(i);
            assert(rest.len() > 0 && rest[0].key@ == key@);
            assert(lookup(rest, key@) == Some(rest[0].value));
            return Some(e.value);
        }
        assert(rest.drop_first() =~= all.subrange(i + 1, all.len() as int));
        i = i + 1;
    }
    None
}

/// The text stored under `key` in `d`, if that value is a string.
pub fn dict_get_string<'a>(d: &'a Vec<PlistEntry>, key: &str) -> (r: Option<&'a String>)
    ensures
        match r {
            Some(s) => lookup_string(d@, key@) == Some(s@),
            None => lookup_string(d@, key@) is None,
        },
{
    match dict_get(d, key) {
        Some(PlistValue::String(s)) => Some(s),
        _ => None,
    }
}

/// The entries of the dictionary stored under `key` in `d`, if that value is
/// a dictionary.
pub fn dict_get_dict<'a>(d: &'a Vec<PlistEntry>, key: &str) -> (r: Option<
    &'a Vec<PlistEntry>,
>)
    ensures
        match r {
            Some(e) => lookup_dict(d@, key@) == Some(e@),
            None => lookup_dict(d@, key@) is None,
        },
{
    match dict_get(d, key) {
        Some(PlistValue::Dictionary(e)) => Some(e),
        _ => None,
    }
}

} // verus!
