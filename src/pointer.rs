use vstd::prelude::*;

use crate::json::{
    lemma_plain_escape, lemma_string_round_trip, parse_string, plain_text, push_escaped, scalar_end,
    skip_scalar, skip_whitespace, skip_ws, string_from, escape_text,
};
use crate::text::{chars_of, matches_at};

verus! {

/// `["`, which opens a pointer record.
pub open spec fn pointer_open() -> Seq<char> {
    seq!['[', '"']
}

/// `",{"s3BucketName":"`, between the class tag and the bucket.
pub open spec fn pointer_bucket_field() -> Seq<char> {
    seq![
        '"', ',', '{', '"', 's', '3', 'B', 'u', 'c', 'k', 'e', 't', 'N', 'a', 'm', 'e', '"', ':',
        '"',
    ]
}

/// `","s3Key":"`, between the bucket and the key.
pub open spec fn pointer_key_field() -> Seq<char> {
    seq!['"', ',', '"', 's', '3', 'K', 'e', 'y', '"', ':', '"']
}

/// `"}]`, which closes a pointer record.
pub open spec fn pointer_close() -> Seq<char> {
    seq!['"', '}', ']']
}

/// The wire form of a pointer record, each field escaped as a JSON string:
/// `["<class>",{"s3BucketName":"<bucket>","s3Key":"<key>"}]`.
pub open spec fn pointer_text(class: Seq<char>, bucket: Seq<char>, key: Seq<char>) -> Seq<char> {
    pointer_open() + escape_text(class) + pointer_bucket_field() + escape_text(bucket)
        + pointer_key_field() + escape_text(key) + pointer_close()
}

/// `s3BucketName`, the member that holds the bucket.
pub open spec fn bucket_member() -> Seq<char> {
    seq!['s', '3', 'B', 'u', 'c', 'k', 'e', 't', 'N', 'a', 'm', 'e']
}

/// `s3Key`, the member that holds the key.
pub open spec fn key_member() -> Seq<char> {
    seq!['s', '3', 'K', 'e', 'y']
}

/// Reads the members of the location object from `i` on, given the bucket
/// and key read so far: each member a string name, a colon and a value.
/// `s3BucketName` and `s3Key` each stand once and hold strings; any other
/// member holds a scalar value and is passed over. Gives bucket, key and the
/// index after the closing brace.
pub open spec fn members_from(
    s: Seq<char>,
    i: int,
    b: Option<Seq<char>>,
    k: Option<Seq<char>>,
) -> Option<(Seq<char>, Seq<char>, int)>
    decreases s.len() - i,
{
    let n = skip_ws(s, i);
    if !(0 <= n < s.len() && s[n] == '"') {
        None
    } else {
        match string_from(s, n + 1) {
            None => None,
            Some((name, j)) => {
                let c = skip_ws(s, j);
                if !(0 <= c < s.len() && s[c] == ':') {
                    None
                } else {
                    let v = skip_ws(s, c + 1);
                    let field = if name == bucket_member() {
                        if b is None && 0 <= v < s.len() && s[v] == '"' {
                            match string_from(s, v + 1) {
                                Some((x, e)) => Some((Some(x), k, e)),
                                None => None,
                            }
                        } else {
                            None
                        }
                    } else if name == key_member() {
                        if k is None && 0 <= v < s.len() && s[v] == '"' {
                            match string_from(s, v + 1) {
                                Some((x, e)) => Some((b, Some(x), e)),
                                None => None,
                            }
                        } else {
                            None
                        }
                    } else {
                        match scalar_end(s, v) {
                            Some(e) => Some((b, k, e)),
                            None => None,
                        }
                    };
                    match field {
                        None => None,
                        Some((nb, nk, e)) => {
                            let a = skip_ws(s, e);
                            if 0 <= a < s.len() && s[a] == ',' && a >= i {
                                members_from(s, a + 1, nb, nk)
                            } else if 0 <= a < s.len() && s[a] == '}' {
                                match (nb, nk) {
                                    (Some(x), Some(y)) => Some((x, y, a + 1)),
                                    _ => None,
                                }
                            } else {
                                None
                            }
                        },
                    }
                }
            },
        }
    }
}

/// Reads a pointer record: a JSON array of the class tag and an object that
/// holds the bucket and the key, with whitespace allowed between tokens.
/// Gives class, bucket and key.
pub open spec fn parse_pointer(s: Seq<char>) -> Option<(Seq<char>, Seq<char>, Seq<char>)> {
    let a = skip_ws(s, 0);
    if !(0 <= a < s.len() && s[a] == '[') {
        None
    } else {
        let b = skip_ws(s, a + 1);
        if !(0 <= b < s.len() && s[b] == '"') {
            None
        } else {
            match string_from(s, b + 1) {
                None => None,
                Some((class, c)) => {
                    let d = skip_ws(s, c);
                    if !(0 <= d < s.len() && s[d] == ',') {
                        None
                    } else {
                        let e = skip_ws(s, d + 1);
                        if !(0 <= e < s.len() && s[e] == '{') {
                            None
                        } else {
                            match members_from(s, e + 1, None, None) {
                                None => None,
                                Some((bucket, key, f)) => {
                                    let g = skip_ws(s, f);
                                    if 0 <= g < s.len() && s[g] == ']' && skip_ws(s, g + 1)
                                        == s.len() {
                                        Some((class, bucket, key))
                                    } else {
                                        None
                                    }
                                },
                            }
                        }
                    }
                },
            }
        }
    }
}

/// A message body that was moved to object storage: where it lies, and the
/// type tag that the record carries.
#[derive(Debug)]
pub struct S3Pointer {
    pub s3_bucket_name: String,
    pub s3_key: String,
    pub class: String,
}

/// A body that is not the wire form of a pointer record.
#[derive(Debug, Clone, Copy, PartialEq, Eq)]
pub struct PointerDecodeError;

fn same_text(a: &Vec<char>, b: &Vec<char>) -> (r: bool)
    ensures
        r == (a@ == b@),
{
    if a.len() != b.len() {
        return false;
    }
    assert(a@ =~= a@.subrange(0, b@.len() as int));
    matches_at(a, b, 0)
}

fn parse_members(v: &Vec<char>, i: usize) -> (r: Option<(String, String, usize)>)
    requires
        i <= v.len(),
    ensures
        match r {
            Some((b, k, e)) => members_from(v@, i as int, None, None) == Some(
                (b@, k@, e as int),
            ) && e <= v.len(),
            None => members_from(v@, i as int, None, None) is None,
        },
{
    let bucket_name: Vec<char> = vec!['s', '3', 'B', 'u', 'c', 'k', 'e', 't', 'N', 'a', 'm', 'e'];
    let key_name: Vec<char> = vec!['s', '3', 'K', 'e', 'y'];
    assert(bucket_name@ =~= bucket_member());
    assert(key_name@ =~= key_member());
    let mut bucket: Option<String> = None;
    let mut key: Option<String> = None;
    let mut j = i;
    loop
        invariant
            j <= v.len(),
            bucket_name@ == bucket_member(),
            key_name@ == key_member(),
            members_from(v@, i as int, None, None) == members_from(
                v@,
                j as int,
                crate::client::opt_view(bucket),
                crate::client::opt_view(key),
            ),
        decreases v.len() - j,
    {
        let n = skip_whitespace(v, j);
        if n >= v.len() || v[n] != '"' {
            return None;
        }
        let (name, p) = match parse_string(v, n + 1) {
            Some(x) => x,
            None => {
                return None;
            },
        };
        let c = skip_whitespace(v, p);
        if c >= v.len() || v[c] != ':' {
            return None;
        }
        let w = skip_whitespace(v, c + 1);
        let name_chars = chars_of(name.as_str());
        let after;
        if same_text(&name_chars, &bucket_name) {
            if bucket.is_some() || w >= v.len() || v[w] != '"' {
                return None;
            }
            match parse_string(v, w + 1) {
                Some((x, e)) => {
                    bucket = Some(x);
                    after = e;
                },
                None => {
                    return None;
                },
            }
        } else if same_text(&name_chars, &key_name) {
            if key.is_some() || w >= v.len() || v[w] != '"' {
                return None;
            }
            match parse_string(v, w + 1) {
                Some((x, e)) => {
                    key = Some(x);
                    after = e;
                },
                None => {
                    return None;
                },
            }
        } else {
            match skip_scalar(v, w) {
                Some(e) => {
                    after = e;
                },
                None => {
                    return None;
                },
            }
        }
        let a = skip_whitespace(v, after);
        if a < v.len() && v[a] == ',' {
            j = a + 1;
        } else if a < v.len() && v[a] == '}' {
            match (bucket, key) {
                (Some(b), Some(k)) => {
                    return Some((b, k, a + 1));
                },
                _ => {
                    return None;
                },
            }
        } else {
            return None;
        }
    }
}

impl S3Pointer {
    /// The record's wire form,
    /// `["<class>",{"s3BucketName":"<bucket>","s3Key":"<key>"}]`, each field
    /// escaped as a JSON string.
    pub fn marshall_json(self) -> (r: String)
        ensures
            r@ == pointer_text(self.class@, self.s3_bucket_name@, self.s3_key@),
    {
        let mut r = String::from_str("[\"");
        push_escaped(&mut r, self.class.as_str());
        r.append("\",{\"s3BucketName\":\"");
        push_escaped(&mut r, self.s3_bucket_name.as_str());
        r.append("\",\"s3Key\":\"");
        push_escaped(&mut r, self.s3_key.as_str());
        r.append("\"}]");
        proof {
            reveal_strlit("[\"");
            reveal_strlit("\",{\"s3BucketName\":\"");
            reveal_strlit("\",\"s3Key\":\"");
            reveal_strlit("\"}]");
            assert("[\""@ =~= pointer_open());
            assert("\",{\"s3BucketName\":\""@ =~= pointer_bucket_field());
            assert("\",\"s3Key\":\""@ =~= pointer_key_field());
            assert("\"}]"@ =~= pointer_close());
        }
        r
    }

    /// Reads a record back from its wire form, as `parse_pointer` describes
    /// it; fails exactly where that gives nothing.
    pub fn unmarshall_json(input: &str) -> (r: Result<S3Pointer, PointerDecodeError>)
        ensures
            match r {
                Ok(p) => parse_pointer(input@) == Some((p.class@, p.s3_bucket_name@, p.s3_key@)),
                Err(_) => parse_pointer(input@) is None,
            },
    {
        let v = chars_of(input);
        let a = skip_whitespace(&v, 0);
        if a >= v.len() || v[a] != '[' {
            return Err(PointerDecodeError);
        }
        let b = skip_whitespace(&v, a + 1);
        if b >= v.len() || v[b] != '"' {
            return Err(PointerDecodeError);
        }
        let (class, c) = match parse_string(&v, b + 1) {
            Some(x) => x,
            None => {
                return Err(PointerDecodeError);
            },
        };
        let d = skip_whitespace(&v, c);
        if d >= v.len() || v[d] != ',' {
            return Err(PointerDecodeError);
        }
        let e = skip_whitespace(&v, d + 1);
        if e >= v.len() || v[e] != '{' {
            return Err(PointerDecodeError);
        }
        let (s3_bucket_name, s3_key, f) = match parse_members(&v, e + 1) {
            Some(x) => x,
            None => {
                return Err(PointerDecodeError);
            },
        };
        let g = skip_whitespace(&v, f);
        if g >= v.len() || v[g] != ']' || skip_whitespace(&v, g + 1) != v.len() {
            return Err(PointerDecodeError);
        }
        Ok(S3Pointer { s3_bucket_name, s3_key, class })
    }
}

/// Where the parts of a pointer record stand in its wire form.
proof fn lemma_pointer_parts(s: Seq<char>, c: Seq<char>, b: Seq<char>, k: Seq<char>)
    requires
        s == pointer_text(c, b, k),
    ensures
        ({
            let p1: int = 2 + escape_text(c).len() as int;
            let q1: int = p1 + 19;
            let p2: int = q1 + escape_text(b).len() as int;
            let q2: int = p2 + 11;
            let p3: int = q2 + escape_text(k).len() as int;
            &&& s.len() == p3 + 3
            &&& s[0] == '[' && s[1] == '"'
            &&& s.subrange(2, p1 as int) == escape_text(c)
            &&& s.subrange(p1 as int, q1 as int) == pointer_bucket_field()
            &&& s.subrange(q1 as int, p2 as int) == escape_text(b)
            &&& s.subrange(p2 as int, q2 as int) == pointer_key_field()
            &&& s.subrange(q2 as int, p3 as int) == escape_text(k)
            &&& s[p3] == '"' && s[p3 + 1] == '}' && s[p3 + 2] == ']'
        }),
{
    let p1: int = 2 + escape_text(c).len() as int;
    let q1: int = p1 + 19;
    let p2: int = q1 + escape_text(b).len();
    let q2: int = p2 + 11;
    let p3: int = q2 + escape_text(k).len();
    assert(s.subrange(0, 2) =~= pointer_open());
    assert(s.subrange(2, p1) =~= escape_text(c));
    assert(s.subrange(p1, q1) =~= pointer_bucket_field());
    assert(s.subrange(q1, p2) =~= escape_text(b));
    assert(s.subrange(p2, q2) =~= pointer_key_field());
    assert(s.subrange(q2, p3) =~= escape_text(k));
    assert(s.subrange(p3, p3 + 3) =~= pointer_close());
    assert(s[0] == s.subrange(0, 2)[0] && s[1] == s.subrange(0, 2)[1]);
    assert(s[p3] == s.subrange(p3, p3 + 3)[0]);
    assert(s[p3 + 1] == s.subrange(p3, p3 + 3)[1]);
    assert(s[p3 + 2] == s.subrange(p3, p3 + 3)[2]);
}

/// A member name between quotes at `i` reads back.
proof fn lemma_member_name(s: Seq<char>, i: int, name: Seq<char>)
    requires
        plain_text(name),
        0 <= i,
        i + name.len() < s.len(),
        s.subrange(i, i + name.len()) == name,
        s[i + name.len()] == '"',
    ensures
        string_from(s, i) == Some((name, i + name.len() + 1)),
{
    lemma_plain_escape(name);
    lemma_string_round_trip(s, i, name);
}

/// The `s3Key` member at `p2` (its leading `","` included) reads back, and
/// closes the object.
proof fn lemma_key_member(s: Seq<char>, p2: int, b: Seq<char>, k: Seq<char>)
    requires
        0 <= p2,
        p2 + 11 + escape_text(k).len() + 1 < s.len(),
        s.subrange(p2, p2 + 11) == pointer_key_field(),
        s.subrange(p2 + 11, p2 + 11 + escape_text(k).len()) == escape_text(k),
        s[p2 + 11 + escape_text(k).len()] == '"',
        s[p2 + 12 + escape_text(k).len()] == '}',
    ensures
        members_from(s, p2 + 2, Some(b), None) == Some(
            (b, k, p2 + 13 + escape_text(k).len()),
        ),
{
    let kf = pointer_key_field();
    assert forall|t: int| 0 <= t < 11 implies s[p2 + t] == kf[t] by {
        assert(s[p2 + t] == s.subrange(p2, p2 + 11)[t]);
    }
    assert(plain_text(key_member()));
    assert(s.subrange(p2 + 3, p2 + 8) =~= key_member());
    lemma_member_name(s, p2 + 3, key_member());
    assert(key_member() != bucket_member()) by {
        assert(key_member().len() != bucket_member().len());
    }
    lemma_string_round_trip(s, p2 + 11, k);
}

/// The `s3BucketName` member at `p1` (its leading `",{"` included) reads
/// back, then the `s3Key` member.
proof fn lemma_bucket_member(s: Seq<char>, p1: int, b: Seq<char>, k: Seq<char>)
    requires
        0 <= p1,
        p1 + 30 + escape_text(b).len() + escape_text(k).len() + 1 < s.len(),
        s.subrange(p1, p1 + 19) == pointer_bucket_field(),
        s.subrange(p1 + 19, p1 + 19 + escape_text(b).len()) == escape_text(b),
        s.subrange(p1 + 19 + escape_text(b).len(), p1 + 30 + escape_text(b).len())
            == pointer_key_field(),
        s.subrange(
            p1 + 30 + escape_text(b).len(),
            p1 + 30 + escape_text(b).len() + escape_text(k).len(),
        ) == escape_text(k),
        s[p1 + 30 + escape_text(b).len() + escape_text(k).len()] == '"',
        s[p1 + 31 + escape_text(b).len() + escape_text(k).len()] == '}',
    ensures
        members_from(s, p1 + 3, None, None) == Some(
            (b, k, p1 + 32 + escape_text(b).len() + escape_text(k).len()),
        ),
{
    let p2: int = p1 + 19 + escape_text(b).len();
    let bf = pointer_bucket_field();
    assert forall|t: int| 0 <= t < 19 implies s[p1 + t] == bf[t] by {
        assert(s[p1 + t] == s.subrange(p1, p1 + 19)[t]);
    }
    assert(s[p2] == s.subrange(p2, p2 + 11)[0]);
    assert(s[p2 + 1] == s.subrange(p2, p2 + 11)[1]);
    assert(plain_text(bucket_member()));
    assert(s.subrange(p1 + 4, p1 + 16) =~= bucket_member());
    lemma_member_name(s, p1 + 4, bucket_member());
    lemma_string_round_trip(s, p1 + 19, b);
    lemma_key_member(s, p2, b, k);
}

/// A text laid out as a pointer record reads back as one.
proof fn lemma_parse_layout(s: Seq<char>, c: Seq<char>, b: Seq<char>, k: Seq<char>)
    requires
        ({
            let p1: int = 2 + escape_text(c).len() as int;
            let q1: int = p1 + 19;
            let p2: int = q1 + escape_text(b).len() as int;
            let q2: int = p2 + 11;
            let p3: int = q2 + escape_text(k).len() as int;
            &&& s.len() == p3 + 3
            &&& s[0] == '[' && s[1] == '"'
            &&& s.subrange(2, p1) == escape_text(c)
            &&& s.subrange(p1, q1) == pointer_bucket_field()
            &&& s.subrange(q1, p2) == escape_text(b)
            &&& s.subrange(p2, q2) == pointer_key_field()
            &&& s.subrange(q2, p3) == escape_text(k)
            &&& s[p3] == '"' && s[p3 + 1] == '}' && s[p3 + 2] == ']'
        }),
    ensures
        parse_pointer(s) == Some((c, b, k)),
{
    let p1: int = 2 + escape_text(c).len() as int;
    let p3: int = p1 + 30 + escape_text(b).len() + escape_text(k).len();
    assert(s[p1] == s.subrange(p1, p1 + 19)[0]);
    assert(s[p1 + 1] == s.subrange(p1, p1 + 19)[1]);
    assert(s[p1 + 2] == s.subrange(p1, p1 + 19)[2]);
    lemma_string_round_trip(s, 2, c);
    lemma_bucket_member(s, p1, b, k);
    assert(skip_ws(s, p3 + 3) == s.len());
}

/// Pointer records round-trip: the wire form of every record reads back as
/// that record.
pub proof fn lemma_pointer_round_trip(class: Seq<char>, bucket: Seq<char>, key: Seq<char>)
    ensures
        parse_pointer(pointer_text(class, bucket, key)) == Some((class, bucket, key)),
{
    let s = pointer_text(class, bucket, key);
    lemma_pointer_parts(s, class, bucket, key);
    lemma_parse_layout(s, class, bucket, key);
}

} // verus!
