use vstd::prelude::*;

use crate::chars::{find_char, first_index_of, has_char, lemma_first_index_unique};
use crate::errors::LaunchError;

verus! {

/// The three fields of a registry auth challenge, read from the value of the
/// `WWW-Authenticate` header of the unauthenticated probe response.
#[derive(Clone, Debug)]
pub struct AuthChallenge {
    pub realm: String,
    pub service: String,
    pub scope: String,
}

/// The key/value reading of one comma-separated piece: the key is everything
/// before the first `=`, the value everything after it with its first and
/// last characters (the surrounding quotes) stripped. `None` when the piece
/// has no `=` or the value is too short to carry two quotes.
pub open spec fn kv_of(piece: Seq<char>) -> Option<(Seq<char>, Seq<char>)> {
    if has_char(piece, '=') {
        let i = first_index_of(piece, '=');
        let v = piece.subrange(i + 1, piece.len() as int);
        if v.len() >= 2 {
            Some((piece.subrange(0, i), v.subrange(1, v.len() - 1)))
        } else {
            None
        }
    } else {
        None
    }
}

/// The value of `piece` when it reads as a pair whose key is `key`.
pub open spec fn key_match(piece: Seq<char>, key: Seq<char>) -> Option<Seq<char>> {
    match kv_of(piece) {
        Some(kv) => if kv.0 == key {
            Some(kv.1)
        } else {
            None
        },
        None => None,
    }
}

/// Every comma-separated piece of `cur + s` reads as a key/value pair, where
/// `cur` is the part of the current piece already read.
pub open spec fn fields_ok_from(s: Seq<char>, cur: Seq<char>) -> bool
    decreases s.len(),
{
    if s.len() == 0 {
        kv_of(cur) is Some
    } else if s[0] == ',' {
        kv_of(cur) is Some && fields_ok_from(s.drop_first(), Seq::<char>::empty())
    } else {
        fields_ok_from(s.drop_first(), cur.push(s[0]))
    }
}

/// The first of two optional values that is present.
pub open spec fn or_else(a: Option<Seq<char>>, b: Option<Seq<char>>) -> Option<Seq<char>> {
    if a is Some {
        a
    } else {
        b
    }
}

/// The value bound to `key` among the comma-separated pieces of `cur + s`,
/// where `cur` is the part of the current piece already read. When several
/// pieces bind the same key, the last one wins.
pub open spec fn field_from(s: Seq<char>, cur: Seq<char>, key: Seq<char>) -> Option<Seq<char>>
    decreases s.len(),
{
    if s.len() == 0 {
        key_match(cur, key)
    } else if s[0] == ',' {
        or_else(field_from(s.drop_first(), Seq::<char>::empty(), key), key_match(cur, key))
    } else {
        field_from(s.drop_first(), cur.push(s[0]), key)
    }
}

/// The challenge carried by a header value: the part after the first space,
/// read as comma-separated `key="value"` pairs, must bind `realm`, `service`
/// and `scope`, and every piece must be well formed.
pub open spec fn challenge_of(header: Seq<char>) -> Option<(Seq<char>, Seq<char>, Seq<char>)> {
    if has_char(header, ' ') {
        let rest = header.subrange(first_index_of(header, ' ') + 1, header.len() as int);
        let empty = Seq::<char>::empty();
        let realm = field_from(rest, empty, "realm"@);
        let service = field_from(rest, empty, "service"@);
        let scope = field_from(rest, empty, "scope"@);
        if fields_ok_from(rest, empty) && realm is Some && service is Some && scope is Some {
            Some((realm.unwrap(), service.unwrap(), scope.unwrap()))
        } else {
            None
        }
    } else {
        None
    }
}

/// Character-for-character string equality.
pub fn str_eq(a: &str, b: &str) -> (r: bool)
    ensures
        r == (a@ == b@),
{
    let na = a.unicode_len();
    let nb = b.unicode_len();
    if na != nb {
        return false;
    }
    let mut k: usize = 0;
    while k < na
        invariant
            na == a@.len(),
            nb == b@.len(),
            na == nb,
            0 <= k <= na,
            forall|j: int| 0 <= j < k ==> a@[j] == b@[j],
        decreases na - k,
    {
        if a.get_char(k) != b.get_char(k) {
            return false;
        }
        k = k + 1;
    }
    proof {
        assert(a@ =~= b@);
    }
    true
}

/// Reads one `key="value"` piece; fails exactly when the piece has no `=` or
/// its value is too short to carry the surrounding quotes.
fn parse_kv(piece: &str) -> (r: Result<(String, String), LaunchError>)
    ensures
        r is Ok <==> kv_of(piece@) is Some,
        r matches Ok(kv) ==> Some((kv.0@, kv.1@)) == kv_of(piece@),
        r matches Err(e) ==> e == LaunchError::ProtocolError,
{
    let n = piece.unicode_len();
    match find_char(piece, '=') {
        None => Err(LaunchError::ProtocolError),
        Some(i) => {
            proof {
                lemma_first_index_unique(piece@, '=', i as int);
            }
            if n - i - 1 < 2 {
                return Err(LaunchError::ProtocolError);
            }
            let key = piece.substring_char(0, i).to_owned();
            let val = piece.substring_char(i + 2, n - 1).to_owned();
            proof {
                let v = piece@.subrange(i as int + 1, n as int);
                assert(v.subrange(1, v.len() - 1) =~= piece@.subrange(i as int + 2, n as int - 1));
            }
            Ok((key, val))
        },
    }
}

/// Scans the comma-separated field list after the challenge scheme and
/// returns the `realm`, `service` and `scope` values, in that order. Fails
/// exactly when some piece is malformed or one of the three keys is absent.
#[verifier::rlimit(60)]
fn parse_fields(rest: &str) -> (r: Result<(String, String, String), LaunchError>)
    ensures
        r is Ok <==> (fields_ok_from(rest@, Seq::<char>::empty())
            && field_from(rest@, Seq::<char>::empty(), "realm"@) is Some
            && field_from(rest@, Seq::<char>::empty(), "service"@) is Some
            && field_from(rest@, Seq::<char>::empty(), "scope"@) is Some),
        r matches Ok(t) ==> {
            &&& field_from(rest@, Seq::<char>::empty(), "realm"@) == Some(t.0@)
            &&& field_from(rest@, Seq::<char>::empty(), "service"@) == Some(t.1@)
            &&& field_from(rest@, Seq::<char>::empty(), "scope"@) == Some(t.2@)
        },
        r matches Err(e) ==> e == LaunchError::ProtocolError,
{
    let n = rest.unicode_len();
    let ghost whole = rest@;
    let ghost empty = Seq::<char>::empty();
    let mut k: usize = 0;
    let mut st: usize = 0;
    let mut realm: Option<String> = None;
    let mut service: Option<String> = None;
    let mut scope: Option<String> = None;
    proof {
        reveal_strlit("realm");
        reveal_strlit("service");
        reveal_strlit("scope");
        assert("realm"@.len() == 5 && "service"@.len() == 7 && "scope"@.len() == 5);
        assert("realm"@[0] == 'r' && "scope"@[0] == 's');
        assert("realm"@ != "service"@ && "realm"@ != "scope"@ && "service"@ != "scope"@);
        assert(whole.subrange(0, n as int) =~= whole);
        assert(whole.subrange(0, 0) =~= empty);
    }
    while k < n
        invariant
            n == whole.len(),
            whole == rest@,
            0 <= st <= k <= n,
            fields_ok_from(whole, Seq::<char>::empty()) == fields_ok_from(
                whole.subrange(k as int, n as int),
                whole.subrange(st as int, k as int),
            ),
            acc_tracks(whole, k as int, st as int, opt_view(realm), "realm"@),
            acc_tracks(whole, k as int, st as int, opt_view(service), "service"@),
            acc_tracks(whole, k as int, st as int, opt_view(scope), "scope"@),
        decreases n - k,
    {
        let ghost rem = whole.subrange(k as int, n as int);
        let ghost cur = whole.subrange(st as int, k as int);
        let ghost tail = whole.subrange(k as int + 1, n as int);
        proof {
            reveal_strlit("realm");
            reveal_strlit("service");
            reveal_strlit("scope");
            assert("realm"@.len() == 5 && "service"@.len() == 7 && "scope"@.len() == 5);
            assert("realm"@[0] == 'r' && "scope"@[0] == 's');
            assert("realm"@ != "service"@ && "realm"@ != "scope"@ && "service"@ != "scope"@);
            assert(rem[0] == whole[k as int]);
            assert(rem.drop_first() =~= tail);
        }
        if rest.get_char(k) == ',' {
            let piece = rest.substring_char(st, k);
            proof {
                assert(fields_ok_from(rem, cur) == (kv_of(cur) is Some && fields_ok_from(
                    tail,
                    Seq::<char>::empty(),
                )));
                assert(field_from(rem, cur, "realm"@) == or_else(
                    field_from(tail, Seq::<char>::empty(), "realm"@),
                    key_match(cur, "realm"@),
                ));
                assert(field_from(rem, cur, "service"@) == or_else(
                    field_from(tail, Seq::<char>::empty(), "service"@),
                    key_match(cur, "service"@),
                ));
                assert(field_from(rem, cur, "scope"@) == or_else(
                    field_from(tail, Seq::<char>::empty(), "scope"@),
                    key_match(cur, "scope"@),
                ));
            }
            match parse_kv(piece) {
                Err(_) => {
                    proof {
                        assert(!fields_ok_from(rem, cur));
                    }
                    return Err(LaunchError::ProtocolError);
                },
                Ok(kv) => {
                    let (key, val) = kv;
                    if str_eq(key.as_str(), "realm") {
                        realm = Some(val);
                    } else if str_eq(key.as_str(), "service") {
                        service = Some(val);
                    } else if str_eq(key.as_str(), "scope") {
                        scope = Some(val);
                    }
                },
            }
            k = k + 1;
            st = k;
            proof {
                assert(whole.subrange(k as int, k as int) =~= Seq::<char>::empty());
            }
        } else {
            k = k + 1;
            proof {
                assert(cur.push(rem[0]) =~= whole.subrange(st as int, k as int));
                assert(fields_ok_from(rem, cur) == fields_ok_from(
                    whole.subrange(k as int, n as int),
                    whole.subrange(st as int, k as int),
                ));
                assert(field_from(rem, cur, "realm"@) == field_from(
                    whole.subrange(k as int, n as int),
                    whole.subrange(st as int, k as int),
                    "realm"@,
                ));
                assert(field_from(rem, cur, "service"@) == field_from(
                    whole.subrange(k as int, n as int),
                    whole.subrange(st as int, k as int),
                    "service"@,
                ));
                assert(field_from(rem, cur, "scope"@) == field_from(
                    whole.subrange(k as int, n as int),
                    whole.subrange(st as int, k as int),
                    "scope"@,
                ));
            }
        }
    }
    let ghost cur = whole.subrange(st as int, n as int);
    proof {
        reveal_strlit("realm");
        reveal_strlit("service");
        reveal_strlit("scope");
        assert("realm"@.len() == 5 && "service"@.len() == 7 && "scope"@.len() == 5);
        assert("realm"@[0] == 'r' && "scope"@[0] == 's');
        assert("realm"@ != "service"@ && "realm"@ != "scope"@ && "service"@ != "scope"@);
        assert(whole.subrange(k as int, n as int) =~= Seq::<char>::empty());
        assert(fields_ok_from(Seq::<char>::empty(), cur) == (kv_of(cur) is Some));
        assert(field_from(Seq::<char>::empty(), cur, "realm"@) == key_match(cur, "realm"@));
        assert(field_from(Seq::<char>::empty(), cur, "service"@) == key_match(cur, "service"@));
        assert(field_from(Seq::<char>::empty(), cur, "scope"@) == key_match(cur, "scope"@));
    }
    let piece = rest.substring_char(st, n);
    match parse_kv(piece) {
        Err(_) => Err(LaunchError::ProtocolError),
        Ok(kv) => {
            let (key, val) = kv;
            if str_eq(key.as_str(), "realm") {
                realm = Some(val);
            } else if str_eq(key.as_str(), "service") {
                service = Some(val);
            } else if str_eq(key.as_str(), "scope") {
                scope = Some(val);
            }
            match (realm, service, scope) {
                (Some(r), Some(s), Some(c)) => Ok((r, s, c)),
                _ => Err(LaunchError::ProtocolError),
            }
        },
    }
}

/// The accumulator holds what the pieces already read bind `key` to, so that
/// the final binding is the accumulator unless the unread part binds `key`.
spec fn acc_tracks(
    whole: Seq<char>,
    k: int,
    st: int,
    acc: Option<Seq<char>>,
    key: Seq<char>,
) -> bool {
    field_from(whole, Seq::<char>::empty(), key) == or_else(
        field_from(whole.subrange(k, whole.len() as int), whole.subrange(st, k), key),
        acc,
    )
}

/// The sequence of characters an optional string holds.
spec fn opt_view(o: Option<String>) -> Option<Seq<char>> {
    match o {
        Some(s) => Some(s@),
        None => None,
    }
}

/// Parses a challenge header value: the scheme up to the first space is
/// discarded, the remainder is read as comma-separated `key="value"` pairs,
/// and the `realm`, `service` and `scope` values make the challenge. Fails
/// with a protocol error exactly when `challenge_of` has no value.
pub fn parse_challenge(header: &str) -> (r: Result<AuthChallenge, LaunchError>)
    ensures
        r is Ok <==> challenge_of(header@) is Some,
        r matches Ok(c) ==> Some((c.realm@, c.service@, c.scope@)) == challenge_of(header@),
        r matches Err(e) ==> e == LaunchError::ProtocolError,
{
    let n = header.unicode_len();
    match find_char(header, ' ') {
        None => Err(LaunchError::ProtocolError),
        Some(sp) => {
            proof {
                lemma_first_index_unique(header@, ' ', sp as int);
            }
            let rest = header.substring_char(sp + 1, n);
            match parse_fields(rest) {
                Ok(t) => {
                    let (realm, service, scope) = t;
                    Ok(AuthChallenge { realm, service, scope })
                },
                Err(e) => Err(e),
            }
        },
    }
}

} // verus!
