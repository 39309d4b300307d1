//! Bearer tokens of a registry, kept by scope.

use crate::registry::error::{RegistryError, RegistryErrorView};
use crate::registry::client::{default_realm, default_service, pull_scope_of, RegistryClient};
use crate::text::{
    concat2, concat_chars, find_from, from_chars, index_of, owned, slice, str_eq, to_chars,
};
use vstd::prelude::*;
use vstd::string::StringExecFns;

verus! {

/// A token and the scope it was issued for.
#[derive(Debug, Clone)]
pub struct ScopedToken {
    pub scope: String,
    pub token: String,
}

/// The tokens issued so far, one for each scope.
#[derive(Debug)]
pub struct Authenticator {
    tokens: Vec<ScopedToken>,
}

/// The address at which a token for `scope` is asked for:
/// `<realm>?service=<service>&scope=<scope>`.
pub open spec fn token_url_of(realm: Seq<char>, service: Seq<char>, scope: Seq<char>) -> Seq<
    char,
> {
    realm + "?service="@ + service + "&scope="@ + scope
}

/// What the token service answered.
#[derive(Debug, Clone)]
pub enum TokenReply {
    /// It answered with success and this token.
    Granted(String),
    /// It answered without success; the text is its status.
    Refused(String),
    /// It could not be reached, or its answer could not be read.
    Failed(String),
}

impl Authenticator {
    /// The scopes with their tokens, as a map.
    pub closed spec fn view(&self) -> Map<Seq<char>, Seq<char>> {
        Map::new(
            |scope: Seq<char>|
                exists|i: int| 0 <= i < self.tokens@.len() && self.tokens@[i].scope@ == scope,
            |scope: Seq<char>|
                self.tokens@[choose|i: int|
                    0 <= i < self.tokens@.len() && self.tokens@[i].scope@ == scope].token@,
        )
    }

    /// No two tokens are kept for one scope.
    #[verifier::type_invariant]
    closed spec fn distinct_scopes(self) -> bool {
        forall|i: int, j: int|
            0 <= i < j < self.tokens@.len() ==> self.tokens@[i].scope@ != self.tokens@[j].scope@
    }

    /// An authenticator that holds no token.
    pub fn new() -> (out: Authenticator)
        ensures
            out@ == Map::<Seq<char>, Seq<char>>::empty(),
    {
        let out = Authenticator { tokens: Vec::new() };
        proof {
            assert(out@ =~= Map::<Seq<char>, Seq<char>>::empty());
        }
        out
    }

    /// The token kept for `scope`, if one is kept.
    pub fn cached(&self, scope: &str) -> (r: Option<String>)
        ensures
            match r {
                Some(t) => self@.dom().contains(scope@) && self@[scope@] == t@,
                None => !self@.dom().contains(scope@),
            },
    {
        proof {
            use_type_invariant(self);
        }
        let mut i: usize = 0;
        while i < self.tokens.len()
            invariant
                i <= self.tokens.len(),
                forall|a: int, b: int|
                    0 <= a < b < self.tokens@.len() ==> self.tokens@[a].scope@
                        != self.tokens@[b].scope@,
                forall|j: int| 0 <= j < i ==> self.tokens@[j].scope@ != scope@,
            decreases self.tokens.len() - i,
        {
            if str_eq(self.tokens[i].scope.as_str(), scope) {
                proof {
                    let k = choose|k: int|
                        0 <= k < self.tokens@.len() && self.tokens@[k].scope@ == scope@;
                    if k > i {
                        assert(self.tokens@[i as int].scope@ != self.tokens@[k].scope@);
                    }
                    assert(k == i);
                }
                return Some(self.tokens[i].token.clone());
            }
            i += 1;
        }
        None
    }

    /// Keeps `token` for `scope`, in place of the token kept for it so far.
    pub fn remember(&mut self, scope: &str, token: &str)
        ensures
            final(self)@ == old(self)@.insert(scope@, token@),
    {
        proof {
            use_type_invariant(&*self);
        }
        let ghost before = self@;
        let ghost old_tokens = self.tokens@;
        let mut kept: Vec<ScopedToken> = Vec::new();
        let mut i: usize = 0;
        while i < self.tokens.len()
            invariant
                i <= self.tokens.len(),
                self.tokens@ == old_tokens,
                forall|a: int, b: int|
                    0 <= a < b < old_tokens.len() ==> old_tokens[a].scope@ != old_tokens[b].scope@,
                forall|a: int| 0 <= a < kept.len() ==> (#[trigger] kept[a]).scope@ != scope@,
                forall|a: int|
                    0 <= a < kept.len() ==> exists|b: int|
                        0 <= b < i && old_tokens[b].scope@ == (#[trigger] kept[a]).scope@
                            && old_tokens[b].token@ == kept[a].token@,
                forall|b: int|
                    0 <= b < i && old_tokens[b].scope@ != scope@ ==> exists|a: int|
                        0 <= a < kept.len() && (#[trigger] kept[a]).scope@ == old_tokens[b].scope@
                            && kept[a].token@ == old_tokens[b].token@,
                forall|a: int, b: int|
                    0 <= a < b < kept.len() ==> kept[a].scope@ != kept[b].scope@,
            decreases self.tokens.len() - i,
        {
            if !str_eq(self.tokens[i].scope.as_str(), scope) {
                let ghost prior = kept@;
                kept.push(
                    ScopedToken {
                        scope: self.tokens[i].scope.clone(),
                        token: self.tokens[i].token.clone(),
                    },
                );
                proof {
                    assert forall|a: int| 0 <= a < kept.len() implies exists|b: int|
                        0 <= b < i + 1 && old_tokens[b].scope@ == (#[trigger] kept[a]).scope@
                            && old_tokens[b].token@ == kept[a].token@ by {
                        if a < prior.len() {
                            assert(kept[a] == prior[a]);
                            let b = choose|b: int|
                                0 <= b < i && old_tokens[b].scope@ == prior[a].scope@
                                    && old_tokens[b].token@ == prior[a].token@;
                            assert(0 <= b < i + 1);
                        } else {
                            assert(old_tokens[i as int].scope@ == kept[a].scope@);
                        }
                    }
                    assert forall|b: int|
                        0 <= b < i + 1 && old_tokens[b].scope@ != scope@ implies exists|a: int|
                        0 <= a < kept.len() && (#[trigger] kept[a]).scope@ == old_tokens[b].scope@
                            && kept[a].token@ == old_tokens[b].token@ by {
                        if b < i {
                            let a = choose|a: int|
                                0 <= a < prior.len() && (#[trigger] prior[a]).scope@
                                    == old_tokens[b].scope@ && prior[a].token@
                                    == old_tokens[b].token@;
                            assert(kept[a] == prior[a]);
                        } else {
                            assert(kept[prior.len() as int].scope@ == old_tokens[b].scope@);
                        }
                    }
                    assert forall|a: int, b: int| 0 <= a < b < kept.len() implies kept[a].scope@
                        != kept[b].scope@ by {
                        if b == prior.len() {
                            assert(kept[a] == prior[a]);
                            let c = choose|c: int|
                                0 <= c < i && old_tokens[c].scope@ == prior[a].scope@
                                    && old_tokens[c].token@ == prior[a].token@;
                            assert(old_tokens[c].scope@ != old_tokens[i as int].scope@);
                        } else {
                            assert(kept[a] == prior[a]);
                            assert(kept[b] == prior[b]);
                        }
                    }
                }
            }
            i += 1;
        }
        let ghost rest = kept@;
        kept.push(ScopedToken { scope: owned(scope), token: owned(token) });
        proof {
            assert forall|a: int, b: int| 0 <= a < b < kept.len() implies kept[a].scope@
                != kept[b].scope@ by {
                assert(kept[a] == rest[a]);
                if b < rest.len() {
                    assert(kept[b] == rest[b]);
                }
            }
        }
        self.tokens = kept;
        proof {
            let after = self@;
            let wanted = before.insert(scope@, token@);
            assert forall|s: Seq<char>| after.dom().contains(s) <==> wanted.dom().contains(
                s,
            ) by {
                if after.dom().contains(s) {
                    let a = choose|a: int| 0 <= a < kept@.len() && kept@[a].scope@ == s;
                    if a < rest.len() {
                        assert(kept[a] == rest[a]);
                        let b = choose|b: int|
                            0 <= b < old_tokens.len() && old_tokens[b].scope@ == rest[a].scope@
                                && old_tokens[b].token@ == rest[a].token@;
                        assert(old_tokens[b].scope@ == s);
                    }
                }
                if wanted.dom().contains(s) {
                    if s == scope@ {
                        assert(kept@[rest.len() as int].scope@ == s);
                    } else {
                        let b = choose|b: int|
                            0 <= b < old_tokens.len() && old_tokens[b].scope@ == s;
                        let a = choose|a: int|
                            0 <= a < rest.len() && (#[trigger] rest[a]).scope@
                                == old_tokens[b].scope@ && rest[a].token@ == old_tokens[b].token@;
                        assert(kept@[a] == rest[a]);
                    }
                }
            }
            assert forall|s: Seq<char>| after.dom().contains(s) implies after[s] == wanted[s] by {
                let a = choose|a: int| 0 <= a < kept@.len() && kept@[a].scope@ == s;
                if a < rest.len() {
                    assert(kept@[a] == rest[a]);
                    let b = choose|b: int|
                        0 <= b < old_tokens.len() && old_tokens[b].scope@ == rest[a].scope@
                            && old_tokens[b].token@ == rest[a].token@;
                    let c = choose|c: int| 0 <= c < old_tokens.len() && old_tokens[c].scope@ == s;
                    assert(b == c);
                } else {
                    assert(s == scope@);
                }
            }
            assert(after =~= wanted);
        }
    }

    /// The address at which a token for `scope` is asked for.
    pub fn token_url(realm: &str, service: &str, scope: &str) -> (out: String)
        ensures
            out@ == token_url_of(realm@, service@, scope@),
    {
        let mut out = owned(realm);
        out.append("?service=");
        out.append(service);
        out.append("&scope=");
        out.append(scope);
        out
    }

    /// The token for `scope`, given what the token service answered when
    /// asked for one. A granted token is kept for the scope; a refusal is an
    /// authentication failure that names the status; a failure is a network
    /// error.
    pub fn token_from(&mut self, scope: &str, reply: TokenReply) -> (r: Result<
        String,
        RegistryError,
    >)
        ensures
            match reply {
                TokenReply::Granted(token) => {
                    &&& r matches Ok(t) && t@ == token@
                    &&& final(self)@ == old(self)@.insert(scope@, token@)
                },
                TokenReply::Refused(status) => {
                    &&& r matches Err(e) && e@ == RegistryErrorView::AuthenticationFailed(
                        "Status: "@ + status@,
                    )
                    &&& final(self)@ == old(self)@
                },
                TokenReply::Failed(reason) => {
                    &&& r matches Err(e) && e@ == RegistryErrorView::Network(reason@)
                    &&& final(self)@ == old(self)@
                },
            },
    {
        match reply {
            TokenReply::Granted(token) => {
                self.remember(scope, token.as_str());
                Ok(token)
            },
            TokenReply::Refused(status) => Err(
                RegistryError::AuthenticationFailed(concat2("Status: ", status.as_str())),
            ),
            TokenReply::Failed(reason) => Err(RegistryError::Network(reason)),
        }
    }
}

// ---------------------------------------------------------------------------
// The challenge of a registry
// ---------------------------------------------------------------------------

/// Whether `needle` stands in `hay` at the place `i`.
pub open spec fn stands_at(hay: Seq<char>, needle: Seq<char>, i: int) -> bool {
    0 <= i && i + needle.len() <= hay.len() && hay.subrange(i, i + needle.len()) == needle
}

/// Whether `i` is the first place at which `needle` stands in `hay`.
pub open spec fn is_first_place(hay: Seq<char>, needle: Seq<char>, i: int) -> bool {
    stands_at(hay, needle, i) && forall|j: int| 0 <= j < i ==> !stands_at(hay, needle, j)
}

/// What opens the value of the parameter `key`: `key="`.
pub open spec fn opening_of(key: Seq<char>) -> Seq<char> {
    key + "=\""@
}

/// The value that opens at the place `i` of a challenge: what stands
/// between the opening of `key` there and the next double quote, if there
/// is one.
pub open spec fn value_at(challenge: Seq<char>, key: Seq<char>, i: int) -> Option<Seq<char>> {
    let rest = challenge.skip(i + opening_of(key).len());
    if index_of(rest, '"') < rest.len() {
        Some(rest.take(index_of(rest, '"')))
    } else {
        None
    }
}

/// Whether `value` is the value of the parameter `key` in a challenge: it
/// is what stands between the first `key="` of the challenge and the next
/// double quote.
pub open spec fn is_param(challenge: Seq<char>, key: Seq<char>, value: Seq<char>) -> bool {
    exists|i: int| #[trigger]
        is_first_place(challenge, opening_of(key), i) && value_at(challenge, key, i) == Some(
            value,
        )
}

/// Whether a challenge has a parameter `key`: `key="` stands in it, with a
/// double quote somewhere after.
pub open spec fn has_param(challenge: Seq<char>, key: Seq<char>) -> bool {
    exists|value: Seq<char>| is_param(challenge, key, value)
}

fn find_place(hay: &Vec<char>, needle: &Vec<char>) -> (r: Option<usize>)
    ensures
        match r {
            Some(i) => is_first_place(hay@, needle@, i as int),
            None => forall|j: int| !stands_at(hay@, needle@, j),
        },
{
    if needle.len() > hay.len() {
        return None;
    }
    let last: usize = hay.len() - needle.len();
    let mut i: usize = 0;
    loop
        invariant
            i <= last,
            last == hay.len() - needle.len(),
            needle.len() <= hay.len(),
            forall|k: int| 0 <= k < i ==> !stands_at(hay@, needle@, k),
        decreases last - i,
    {
        let mut j: usize = 0;
        let mut same = true;
        while j < needle.len()
            invariant
                j <= needle.len(),
                i <= last,
                last == hay.len() - needle.len(),
                needle.len() <= hay.len(),
                same ==> forall|k: int| 0 <= k < j ==> hay[i + k] == needle[k],
                !same ==> hay@.subrange(i as int, i + needle.len()) != needle@,
            decreases needle.len() - j,
        {
            if hay[i + j] != needle[j] {
                same = false;
                proof {
                    assert(hay@.subrange(i as int, i + needle.len())[j as int] == hay[i + j]);
                }
            }
            j += 1;
        }
        if same {
            proof {
                assert(hay@.subrange(i as int, i + needle.len()) =~= needle@);
            }
            return Some(i);
        }
        if i == last {
            return None;
        }
        i += 1;
    }
}

/// The value of the parameter `key` in a challenge such as
/// `Bearer realm="https://auth.docker.io/token",service="registry.docker.io"`.
pub fn challenge_param(challenge: &str, key: &str) -> (r: Option<String>)
    ensures
        match r {
            Some(value) => is_param(challenge@, key@, value@),
            None => !has_param(challenge@, key@),
        },
{
    let text = to_chars(challenge);
    let opening = concat_chars(&to_chars(key), &to_chars("=\""));
    match find_place(&text, &opening) {
        None => {
            proof {
                assert forall|value: Seq<char>| !is_param(challenge@, key@, value) by {
                    if is_param(challenge@, key@, value) {
                        let i = choose|i: int| #[trigger]
                            is_first_place(challenge@, opening_of(key@), i) && value_at(
                                challenge@,
                                key@,
                                i,
                            ) == Some(value);
                        assert(stands_at(text@, opening@, i));
                    }
                }
            }
            None
        },
        Some(at) => {
            proof {
                assert(stands_at(text@, opening@, at as int));
            }
            let start = at + opening.len();
            let end = find_from(&text, '"', start);
            proof {
                assert forall|i: int| #[trigger]
                    is_first_place(challenge@, opening_of(key@), i) implies i == at by {
                    if i < at {
                        assert(stands_at(text@, opening@, i));
                    } else if i > at {
                        assert(stands_at(text@, opening@, at as int));
                    }
                }
                assert(is_first_place(challenge@, opening_of(key@), at as int));
            }
            if end < text.len() {
                let value = slice(&text, start, end);
                proof {
                    let rest = text@.skip(start as int);
                    assert(rest.take(end - start) =~= text@.subrange(start as int, end as int));
                    assert(value_at(challenge@, key@, at as int) == Some(value@));
                }
                Some(from_chars(&value))
            } else {
                proof {
                    assert(value_at(challenge@, key@, at as int) is None);
                    assert forall|value: Seq<char>| !is_param(challenge@, key@, value) by {
                        if is_param(challenge@, key@, value) {
                            let i = choose|i: int| #[trigger]
                                is_first_place(challenge@, opening_of(key@), i) && value_at(
                                    challenge@,
                                    key@,
                                    i,
                                ) == Some(value);
                            assert(i == at);
                        }
                    }
                }
                None
            }
        },
    }
}

/// Where and for what a token is asked.
#[derive(Debug, Clone)]
pub struct TokenRequest {
    pub realm: String,
    pub service: String,
    pub scope: String,
}

/// Where a token for pulling from `repo` is asked, given the challenge of
/// the registry where it sent one: at the realm and for the service that
/// the challenge names, or at those of the default registry; the scope is
/// that of pulling from `repo`.
pub fn token_request(challenge: Option<&str>, repo: &str) -> (out: TokenRequest)
    ensures
        out.scope@ == pull_scope_of(repo@),
        match challenge {
            Some(c) => {
                &&& if has_param(c@, "realm"@) {
                    is_param(c@, "realm"@, out.realm@)
                } else {
                    out.realm@ == default_realm()
                }
                &&& if has_param(c@, "service"@) {
                    is_param(c@, "service"@, out.service@)
                } else {
                    out.service@ == default_service()
                }
            },
            None => out.realm@ == default_realm() && out.service@ == default_service(),
        },
{
    let realm = match challenge {
        Some(c) => challenge_param(c, "realm"),
        None => None,
    };
    let service = match challenge {
        Some(c) => challenge_param(c, "service"),
        None => None,
    };
    TokenRequest {
        realm: match realm {
            Some(r) => r,
            None => owned("https://auth.docker.io/token"),
        },
        service: match service {
            Some(s) => s,
            None => owned("registry.docker.io"),
        },
        scope: RegistryClient::pull_scope(repo),
    }
}

} // verus!
