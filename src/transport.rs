use vstd::prelude::*;
use crate::address::{multiaddr_accepts, parse_address, parse_peer_id, peer_id_accepts};
use crate::error::NodeError;
use crate::registry::Registry;
use crate::text::{bool_text, bool_text_spec, decimal, decimal_text, has_infix, join, join_spec, joined, text_contains};
use crate::text_set::texts;

verus! {

/// Whether `t` holds no `/`.
pub open spec fn no_slash(t: Seq<char>) -> bool {
    forall|i: int| 0 <= i < t.len() ==> t[i] != '/'
}

/// Whether `ip` alone makes a well-formed `/<proto>/<ip>` address part.
pub open spec fn ip_accepted(proto: Seq<char>, ip: Seq<char>) -> bool {
    no_slash(ip) && multiaddr_accepts("/"@ + proto + "/"@ + ip)
}

/// Whether `t` starts with `/`.
pub open spec fn starts_with_slash(t: Seq<char>) -> bool {
    t.len() > 0 && t[0] == '/'
}

/// The address text of a sequence of parts.
pub open spec fn address_text(parts: Seq<Seq<char>>) -> Seq<char> {
    join_spec(parts, Seq::empty())
}

fn bare_is_prefix(c: &str, p: &str) -> (r: bool)
    requires
        p@.len() <= c@.len(),
    ensures
        r == has_prefix(c@, p@),
{
    let m = p.unicode_len();
    let mut k: usize = 0;
    while k < m
        invariant
            m == p@.len(),
            m <= c@.len(),
            k <= m,
            forall|j: int| 0 <= j < k ==> c@[j] == p@[j],
        decreases m - k,
    {
        if c.get_char(k) != p.get_char(k) {
            proof {
                assert(c@.subrange(0, m as int)[k as int] != p@[k as int]);
            }
            return false;
        }
        k = k + 1;
    }
    proof {
        assert(c@.subrange(0, m as int) =~= p@);
    }
    true
}

fn has_no_slash(t: &str) -> (r: bool)
    ensures
        r == no_slash(t@),
{
    let n = t.unicode_len();
    let mut i: usize = 0;
    while i < n
        invariant
            n == t@.len(),
            i <= n,
            forall|j: int| 0 <= j < i ==> t@[j] != '/',
        decreases n - i,
    {
        if t.get_char(i) == '/' {
            return false;
        }
        i = i + 1;
    }
    true
}

fn begins_with_slash(t: &str) -> (r: bool)
    ensures
        r == starts_with_slash(t@),
{
    t.unicode_len() > 0 && t.get_char(0) == '/'
}

/// The first position at or after `i` where `p` occurs in `s`.
pub open spec fn infix_from(s: Seq<char>, p: Seq<char>, i: int) -> Option<int>
    decreases s.len() + 1 - i,
{
    if i < 0 || i + p.len() > s.len() {
        None
    } else if s.subrange(i, i + p.len()) == p {
        Some(i)
    } else {
        infix_from(s, p, i + 1)
    }
}

/// `/<kind>/`, the marker of a part of that kind with a value.
pub open spec fn valued_marker(kind: Seq<char>) -> Seq<char> {
    "/"@ + kind + "/"@
}

/// `/<kind>`, a part of that kind without a value.
pub open spec fn bare_part(kind: Seq<char>) -> Seq<char> {
    "/"@ + kind
}

/// Whether `c` starts with `p`.
pub open spec fn has_prefix(c: Seq<char>, p: Seq<char>) -> bool {
    p.len() <= c.len() && c.subrange(0, p.len() as int) == p
}

/// The value of the first part of kind `kind`: the text after the marker
/// for a part with a value, empty for a bare part.
pub open spec fn component_value(parts: Seq<Seq<char>>, kind: Seq<char>) -> Option<Seq<char>>
    decreases parts.len(),
{
    if parts.len() == 0 {
        None
    } else {
        let c = parts[0];
        let m = valued_marker(kind);
        match infix_from(c, m, 0) {
            Some(i) => Some(c.subrange(i + m.len(), c.len() as int)),
            None => if c == bare_part(kind) {
                Some(Seq::empty())
            } else {
                component_value(parts.subrange(1, parts.len() as int), kind)
            },
        }
    }
}

/// The text a part of kind `kind` takes with `value`.
pub open spec fn part_with(kind: Seq<char>, value: Seq<char>) -> Seq<char> {
    valued_marker(kind) + value
}

/// The index of the first part that mentions kind `kind`, the way
/// `replace_component` looks for it.
pub open spec fn first_of_kind(parts: Seq<Seq<char>>, kind: Seq<char>, i: int) -> Option<int>
    decreases parts.len() - i,
{
    if i < 0 || i >= parts.len() {
        None
    } else if infix_from(parts[i], valued_marker(kind), 0) is Some || parts[i] == bare_part(kind) {
        Some(i)
    } else {
        first_of_kind(parts, kind, i + 1)
    }
}

/// A position `infix_from` finds is a match that fits in the text.
proof fn lemma_infix_from_fits(s: Seq<char>, p: Seq<char>, i: int)
    ensures
        infix_from(s, p, i) matches Some(j) ==> 0 <= j && j + p.len() <= s.len() && s.subrange(j, j + p.len()) == p,
    decreases s.len() + 1 - i,
{
    if !(i < 0 || i + p.len() > s.len()) && s.subrange(i, i + p.len()) != p {
        lemma_infix_from_fits(s, p, i + 1);
    }
}

fn find_from(s: &str, p: &str, start: usize) -> (r: Option<usize>)
    requires
        start <= s@.len(),
    ensures
        match r {
            Some(k) => infix_from(s@, p@, start as int) == Some(k as int),
            None => infix_from(s@, p@, start as int) is None,
        },
    decreases s@.len() - start,
{
    let n = s.unicode_len();
    let m = p.unicode_len();
    if m > n || start > n - m {
        return None;
    }
    let mut k: usize = 0;
    while k < m
        invariant
            n == s@.len(),
            m == p@.len(),
            start + m <= n,
            k <= m,
            forall|j: int| 0 <= j < k ==> s@[start + j] == p@[j],
        decreases m - k,
    {
        if s.get_char(start + k) != p.get_char(k) {
            proof {
                assert(s@.subrange(start as int, start + m)[k as int] != p@[k as int]);
            }
            return find_from(s, p, start + 1);
        }
        k = k + 1;
    }
    proof {
        assert(s@.subrange(start as int, start + m) =~= p@);
    }
    Some(start)
}

/// Builds a multiaddress text part by part, checking each part while
/// validation is on.
pub struct MultiaddrBuilder {
    components: Vec<String>,
    validation_enabled: bool,
}

impl MultiaddrBuilder {
    /// The parts so far, in order.
    pub closed spec fn parts(&self) -> Seq<Seq<char>> {
        texts(self.components@)
    }

    pub closed spec fn validating(&self) -> bool {
        self.validation_enabled
    }

    /// No parts, validation on.
    pub fn new() -> (r: MultiaddrBuilder)
        ensures
            r.parts() == Seq::<Seq<char>>::empty(),
            r.validating(),
    {
        let r = MultiaddrBuilder { components: Vec::new(), validation_enabled: true };
        proof {
            assert(r.parts() =~= Seq::<Seq<char>>::empty());
        }
        r
    }

    pub fn enable_validation(&mut self, enabled: bool)
        ensures
            final(self).validating() == enabled,
            final(self).parts() == old(self).parts(),
    {
        self.validation_enabled = enabled;
    }

    fn push_part(&mut self, part: String)
        ensures
            final(self).parts() == old(self).parts().push(part@),
            final(self).validating() == old(self).validating(),
    {
        let ghost p = part@;
        self.components.push(part);
        proof {
            assert(self.parts() =~= old(self).parts().push(p));
        }
    }

    /// Appends `/ip4/<ip>`; while validating, `ip` must be an IPv4 address.
    pub fn ip4(&mut self, ip: String) -> (r: Result<(), NodeError>)
        ensures
            r is Err <==> old(self).validating() && !ip_accepted("ip4"@, ip@),
            r is Err ==> r == Err::<(), NodeError>(NodeError::InvalidComponent) && final(self).parts()
                == old(self).parts(),
            r is Ok ==> final(self).parts() == old(self).parts().push("/ip4/"@ + ip@),
            final(self).validating() == old(self).validating(),
    {
        let part = joined("/ip4/", ip.as_str());
        if self.validation_enabled {
            let ok = has_no_slash(ip.as_str()) && parse_address(part.as_str()).is_ok();
            proof {
                assert("/ip4/"@ + ip@ =~= "/"@ + "ip4"@ + "/"@ + ip@) by {
                    reveal_strlit("/ip4/");
                    reveal_strlit("/");
                    reveal_strlit("ip4");
                }
            }
            if !ok {
                return Err(NodeError::InvalidComponent);
            }
        }
        self.push_part(part);
        Ok(())
    }

    /// Appends `/ip6/<ip>`; while validating, `ip` must be an IPv6 address.
    pub fn ip6(&mut self, ip: String) -> (r: Result<(), NodeError>)
        ensures
            r is Err <==> old(self).validating() && !ip_accepted("ip6"@, ip@),
            r is Err ==> r == Err::<(), NodeError>(NodeError::InvalidComponent) && final(self).parts()
                == old(self).parts(),
            r is Ok ==> final(self).parts() == old(self).parts().push("/ip6/"@ + ip@),
            final(self).validating() == old(self).validating(),
    {
        let part = joined("/ip6/", ip.as_str());
        if self.validation_enabled {
            let ok = has_no_slash(ip.as_str()) && parse_address(part.as_str()).is_ok();
            proof {
                assert("/ip6/"@ + ip@ =~= "/"@ + "ip6"@ + "/"@ + ip@) by {
                    reveal_strlit("/ip6/");
                    reveal_strlit("/");
                    reveal_strlit("ip6");
                }
            }
            if !ok {
                return Err(NodeError::InvalidComponent);
            }
        }
        self.push_part(part);
        Ok(())
    }

    fn named_host(&mut self, prefix: &str, hostname: String) -> (r: Result<(), NodeError>)
        ensures
            r is Err <==> old(self).validating() && hostname@.len() == 0,
            r is Err ==> r == Err::<(), NodeError>(NodeError::InvalidComponent) && final(self).parts()
                == old(self).parts(),
            r is Ok ==> final(self).parts() == old(self).parts().push(prefix@ + hostname@),
            final(self).validating() == old(self).validating(),
    {
        if self.validation_enabled && hostname.unicode_len() == 0 {
            return Err(NodeError::InvalidComponent);
        }
        self.push_part(joined(prefix, hostname.as_str()));
        Ok(())
    }

    /// Appends `/dns/<hostname>`; while validating, it must not be empty.
    pub fn dns(&mut self, hostname: String) -> (r: Result<(), NodeError>)
        ensures
            r is Err <==> old(self).validating() && hostname@.len() == 0,
            r is Err ==> r == Err::<(), NodeError>(NodeError::InvalidComponent) && final(self).parts()
                == old(self).parts(),
            r is Ok ==> final(self).parts() == old(self).parts().push("/dns/"@ + hostname@),
            final(self).validating() == old(self).validating(),
    {
        self.named_host("/dns/", hostname)
    }

    /// Appends `/dns4/<hostname>`; while validating, it must not be empty.
    pub fn dns4(&mut self, hostname: String) -> (r: Result<(), NodeError>)
        ensures
            r is Err <==> old(self).validating() && hostname@.len() == 0,
            r is Err ==> r == Err::<(), NodeError>(NodeError::InvalidComponent) && final(self).parts()
                == old(self).parts(),
            r is Ok ==> final(self).parts() == old(self).parts().push("/dns4/"@ + hostname@),
            final(self).validating() == old(self).validating(),
    {
        self.named_host("/dns4/", hostname)
    }

    /// Appends `/dns6/<hostname>`; while validating, it must not be empty.
    pub fn dns6(&mut self, hostname: String) -> (r: Result<(), NodeError>)
        ensures
            r is Err <==> old(self).validating() && hostname@.len() == 0,
            r is Err ==> r == Err::<(), NodeError>(NodeError::InvalidComponent) && final(self).parts()
                == old(self).parts(),
            r is Ok ==> final(self).parts() == old(self).parts().push("/dns6/"@ + hostname@),
            final(self).validating() == old(self).validating(),
    {
        self.named_host("/dns6/", hostname)
    }

    /// Appends `/dnsaddr/<hostname>`; while validating, it must not be empty.
    pub fn dnsaddr(&mut self, hostname: String) -> (r: Result<(), NodeError>)
        ensures
            r is Err <==> old(self).validating() && hostname@.len() == 0,
            r is Err ==> r == Err::<(), NodeError>(NodeError::InvalidComponent) && final(self).parts()
                == old(self).parts(),
            r is Ok ==> final(self).parts() == old(self).parts().push("/dnsaddr/"@ + hostname@),
            final(self).validating() == old(self).validating(),
    {
        self.named_host("/dnsaddr/", hostname)
    }

    fn numbered_port(&mut self, prefix: &str, port: u16) -> (r: Result<(), NodeError>)
        ensures
            r is Err <==> old(self).validating() && port == 0,
            r is Err ==> r == Err::<(), NodeError>(NodeError::InvalidComponent) && final(self).parts()
                == old(self).parts(),
            r is Ok ==> final(self).parts() == old(self).parts().push(prefix@ + decimal(port as nat)),
            final(self).validating() == old(self).validating(),
    {
        if self.validation_enabled && port == 0 {
            return Err(NodeError::InvalidComponent);
        }
        let digits = decimal_text(port as u64);
        self.push_part(joined(prefix, digits.as_str()));
        Ok(())
    }

    /// Appends `/tcp/<port>`; while validating, the port must not be zero.
    pub fn tcp(&mut self, port: u16) -> (r: Result<(), NodeError>)
        ensures
            r is Err <==> old(self).validating() && port == 0,
            r is Err ==> r == Err::<(), NodeError>(NodeError::InvalidComponent) && final(self).parts()
                == old(self).parts(),
            r is Ok ==> final(self).parts() == old(self).parts().push("/tcp/"@ + decimal(port as nat)),
            final(self).validating() == old(self).validating(),
    {
        self.numbered_port("/tcp/", port)
    }

    /// Appends `/udp/<port>`; while validating, the port must not be zero.
    pub fn udp(&mut self, port: u16) -> (r: Result<(), NodeError>)
        ensures
            r is Err <==> old(self).validating() && port == 0,
            r is Err ==> r == Err::<(), NodeError>(NodeError::InvalidComponent) && final(self).parts()
                == old(self).parts(),
            r is Ok ==> final(self).parts() == old(self).parts().push("/udp/"@ + decimal(port as nat)),
            final(self).validating() == old(self).validating(),
    {
        self.numbered_port("/udp/", port)
    }

    /// Appends `/quic`.
    pub fn quic(&mut self)
        ensures
            final(self).parts() == old(self).parts().push("/quic"@),
            final(self).validating() == old(self).validating(),
    {
        self.push_part("/quic".to_owned());
    }

    /// Appends `/quic-v1`.
    pub fn quic_v1(&mut self)
        ensures
            final(self).parts() == old(self).parts().push("/quic-v1"@),
            final(self).validating() == old(self).validating(),
    {
        self.push_part("/quic-v1".to_owned());
    }

    fn web_socket(&mut self, prefix: &str, path: Option<String>) -> (r: Result<(), NodeError>)
        ensures
            r is Err <==> old(self).validating() && path is Some && !starts_with_slash(path->0@),
            r is Err ==> r == Err::<(), NodeError>(NodeError::InvalidComponent) && final(self).parts()
                == old(self).parts(),
            r is Ok ==> final(self).parts() == old(self).parts().push(
                match path {
                    Some(p) => prefix@ + p@,
                    None => prefix@,
                },
            ),
            final(self).validating() == old(self).validating(),
    {
        match path {
            Some(p) => {
                if self.validation_enabled && !begins_with_slash(p.as_str()) {
                    return Err(NodeError::InvalidComponent);
                }
                self.push_part(joined(prefix, p.as_str()));
            },
            None => {
                self.push_part(prefix.to_owned());
            },
        }
        Ok(())
    }

    /// Appends `/ws`, followed by `path` when given; while validating, the
    /// path must start with `/`.
    pub fn ws(&mut self, path: Option<String>) -> (r: Result<(), NodeError>)
        ensures
            r is Err <==> old(self).validating() && path is Some && !starts_with_slash(path->0@),
            r is Err ==> r == Err::<(), NodeError>(NodeError::InvalidComponent) && final(self).parts()
                == old(self).parts(),
            r is Ok ==> final(self).parts() == old(self).parts().push(
                match path {
                    Some(p) => "/ws"@ + p@,
                    None => "/ws"@,
                },
            ),
            final(self).validating() == old(self).validating(),
    {
        self.web_socket("/ws", path)
    }

    /// Appends `/wss`, followed by `path` when given; while validating, the
    /// path must start with `/`.
    pub fn wss(&mut self, path: Option<String>) -> (r: Result<(), NodeError>)
        ensures
            r is Err <==> old(self).validating() && path is Some && !starts_with_slash(path->0@),
            r is Err ==> r == Err::<(), NodeError>(NodeError::InvalidComponent) && final(self).parts()
                == old(self).parts(),
            r is Ok ==> final(self).parts() == old(self).parts().push(
                match path {
                    Some(p) => "/wss"@ + p@,
                    None => "/wss"@,
                },
            ),
            final(self).validating() == old(self).validating(),
    {
        self.web_socket("/wss", path)
    }

    /// Appends `/p2p/<peer_id>`; while validating, it must be a well-formed
    /// peer identifier.
    pub fn p2p(&mut self, peer_id: String) -> (r: Result<(), NodeError>)
        ensures
            r is Err <==> old(self).validating() && !peer_id_accepts(peer_id@),
            r is Err ==> r == Err::<(), NodeError>(NodeError::InvalidPeerId) && final(self).parts()
                == old(self).parts(),
            r is Ok ==> final(self).parts() == old(self).parts().push("/p2p/"@ + peer_id@),
            final(self).validating() == old(self).validating(),
    {
        if self.validation_enabled {
            match parse_peer_id(peer_id.as_str()) {
                Ok(_) => {},
                Err(e) => {
                    return Err(e);
                },
            }
        }
        self.push_part(joined("/p2p/", peer_id.as_str()));
        Ok(())
    }

    /// Appends `/memory/<port>`.
    pub fn memory(&mut self, port: u64)
        ensures
            final(self).parts() == old(self).parts().push("/memory/"@ + decimal(port as nat)),
            final(self).validating() == old(self).validating(),
    {
        let digits = decimal_text(port);
        self.push_part(joined("/memory/", digits.as_str()));
    }

    /// The parts run together; refused when there are none, and, while
    /// validating, when the result is not a well-formed multiaddress.
    pub fn build(&self) -> (r: Result<String, NodeError>)
        ensures
            self.parts().len() == 0 ==> r == Err::<String, NodeError>(NodeError::InvalidComponent),
            self.parts().len() > 0 && self.validating() && !multiaddr_accepts(
                address_text(self.parts()),
            ) ==> r == Err::<String, NodeError>(NodeError::InvalidAddress),
            r is Ok <==> self.parts().len() > 0 && (!self.validating() || multiaddr_accepts(
                address_text(self.parts()),
            )),
            r is Ok ==> r->Ok_0@ == address_text(self.parts()),
    {
        if self.components.len() == 0 {
            return Err(NodeError::InvalidComponent);
        }
        let text = self.build_without_validation();
        if self.validation_enabled {
            match parse_address(text.as_str()) {
                Ok(_) => {},
                Err(e) => {
                    return Err(e);
                },
            }
        }
        Ok(text)
    }

    /// The parts run together, unchecked.
    pub fn build_without_validation(&self) -> (r: String)
        ensures
            r@ == address_text(self.parts()),
    {
        proof {
            reveal_strlit("");
            assert(""@ =~= Seq::<char>::empty());
        }
        join(&self.components, "")
    }

    /// Whether the parts run together make a well-formed multiaddress; a
    /// malformed one is `InvalidAddress`.
    pub fn validate(&self) -> (r: Result<bool, NodeError>)
        ensures
            r is Ok <==> multiaddr_accepts(address_text(self.parts())),
            r is Ok ==> r == Ok::<bool, NodeError>(true),
            r is Err ==> r == Err::<bool, NodeError>(NodeError::InvalidAddress),
    {
        let text = self.build_without_validation();
        match parse_address(text.as_str()) {
            Ok(_) => Ok(true),
            Err(e) => Err(e),
        }
    }

    pub fn clear(&mut self)
        ensures
            final(self).parts() == Seq::<Seq<char>>::empty(),
            final(self).validating() == old(self).validating(),
    {
        self.components.clear();
        proof {
            assert(self.parts() =~= Seq::<Seq<char>>::empty());
        }
    }

    pub fn get_components(&self) -> (r: Vec<String>)
        ensures
            texts(r@) == self.parts(),
    {
        crate::text::copy_texts(&self.components)
    }

    /// Removes the last part and hands it back, if there is one.
    pub fn remove_last_component(&mut self) -> (r: Option<String>)
        ensures
            old(self).parts().len() == 0 ==> r is None && final(self).parts() == old(self).parts(),
            old(self).parts().len() > 0 ==> r is Some && r->0@ == old(self).parts().last()
                && final(self).parts() == old(self).parts().drop_last(),
            final(self).validating() == old(self).validating(),
    {
        let r = self.components.pop();
        proof {
            assert(self.parts() =~= if old(self).parts().len() == 0 {
                old(self).parts()
            } else {
                old(self).parts().drop_last()
            });
        }
        r
    }

    /// Whether some part mentions `/<kind>/` or starts with `/<kind>`.
    pub fn has_component(&self, kind: &str) -> (r: bool)
        ensures
            r == exists|i: int|
                0 <= i < self.parts().len() && (has_infix(#[trigger] self.parts()[i], valued_marker(kind@))
                    || has_prefix(self.parts()[i], bare_part(kind@))),
    {
        let marker = joined(joined("/", kind).as_str(), "/");
        let bare = joined("/", kind);
        let mut i: usize = 0;
        while i < self.components.len()
            invariant
                i <= self.components@.len(),
                marker@ == valued_marker(kind@),
                bare@ == bare_part(kind@),
                forall|j: int|
                    0 <= j < i ==> !(has_infix(#[trigger] self.parts()[j], valued_marker(kind@)) || has_prefix(
                        self.parts()[j],
                        bare_part(kind@),
                    )),
            decreases self.components@.len() - i,
        {
            let c = self.components[i].as_str();
            let hit = text_contains(c, marker.as_str()) || (bare.unicode_len() <= c.unicode_len()
                && bare_is_prefix(c, bare.as_str()));
            proof {
                assert(self.parts()[i as int] == c@);
            }
            if hit {
                return true;
            }
            i = i + 1;
        }
        false
    }

    /// The value of the first part of kind `kind`: the text after
    /// `/<kind>/` in it, or nothing for a bare `/<kind>` part.
    pub fn get_component_value(&self, kind: &str) -> (r: Option<String>)
        ensures
            match r {
                Some(v) => component_value(self.parts(), kind@) == Some(v@),
                None => component_value(self.parts(), kind@) is None,
            },
    {
        let marker = joined(joined("/", kind).as_str(), "/");
        let bare = joined("/", kind);
        let mut i: usize = 0;
        proof {
            assert(self.parts().subrange(0, self.parts().len() as int) =~= self.parts());
        }
        while i < self.components.len()
            invariant
                i <= self.components@.len(),
                marker@ == valued_marker(kind@),
                bare@ == bare_part(kind@),
                component_value(self.parts(), kind@) == component_value(
                    self.parts().subrange(i as int, self.parts().len() as int),
                    kind@,
                ),
            decreases self.components@.len() - i,
        {
            let c = self.components[i].as_str();
            proof {
                assert(self.parts()[i as int] == c@);
            }
            let ghost rest = self.parts().subrange(i as int, self.parts().len() as int);
            proof {
                assert(rest[0] == c@);
                assert(rest.subrange(1, rest.len() as int) =~= self.parts().subrange(
                    i + 1,
                    self.parts().len() as int,
                ));
            }
            match find_from(c, marker.as_str(), 0) {
                Some(at) => {
                    proof {
                        lemma_infix_from_fits(c@, marker@, 0);
                        let j = infix_from(c@, marker@, 0)->0;
                        assert(at as int == j);
                    }
                    let clen = c.unicode_len();
                    let start = at + marker.unicode_len();
                    return Some(c.substring_char(start, clen).to_owned());
                },
                None => {
                    if self.components[i] == bare {
                        proof {
                            reveal_strlit("");
                        }
                        return Some("".to_owned());
                    }
                },
            }
            i = i + 1;
        }
        proof {
            assert(self.parts().subrange(i as int, self.parts().len() as int).len() == 0);
        }
        None
    }

    /// Gives the first part of kind `kind` the value `new_value`: a part with
    /// a value becomes `/<kind>/<new_value>`, a bare part too unless the new
    /// value is empty. Says whether there was such a part.
    pub fn replace_component(&mut self, kind: &str, new_value: &str) -> (r: bool)
        ensures
            final(self).validating() == old(self).validating(),
            match first_of_kind(old(self).parts(), kind@, 0) {
                Some(i) => r && final(self).parts() == old(self).parts().update(
                    i,
                    if old(self).parts()[i] == bare_part(kind@) && infix_from(
                        old(self).parts()[i],
                        valued_marker(kind@),
                        0,
                    ) is None && new_value@.len() == 0 {
                        bare_part(kind@)
                    } else {
                        part_with(kind@, new_value@)
                    },
                ),
                None => !r && final(self).parts() == old(self).parts(),
            },
    {
        let marker = joined(joined("/", kind).as_str(), "/");
        let bare = joined("/", kind);
        let mut i: usize = 0;
        while i < self.components.len()
            invariant
                self.validating() == old(self).validating(),
                self.parts() == old(self).parts(),
                i <= self.components@.len(),
                marker@ == valued_marker(kind@),
                bare@ == bare_part(kind@),
                first_of_kind(self.parts(), kind@, 0) == first_of_kind(self.parts(), kind@, i as int),
            decreases self.components@.len() - i,
        {
            let valued = find_from(self.components[i].as_str(), marker.as_str(), 0).is_some();
            let is_bare = !valued && self.components[i] == bare;
            proof {
                assert(self.parts()[i as int] == self.components@[i as int]@);
            }
            if valued || is_bare {
                let ghost old_parts = self.parts();
                let text = if is_bare && new_value.unicode_len() == 0 {
                    bare
                } else {
                    joined(marker.as_str(), new_value)
                };
                self.components.set(i, text);
                proof {
                    assert(self.parts() =~= old_parts.update(
                        i as int,
                        if old_parts[i as int] == bare_part(kind@) && infix_from(
                            old_parts[i as int],
                            valued_marker(kind@),
                            0,
                        ) is None && new_value@.len() == 0 {
                            bare_part(kind@)
                        } else {
                            part_with(kind@, new_value@)
                        },
                    ));
                }
                return true;
            }
            i = i + 1;
        }
        false
    }

    pub fn component_count(&self) -> (r: usize)
        ensures
            r == self.parts().len(),
    {
        self.components.len()
    }
}

/// Bytes sent and received over one kind of transport.
pub type Bandwidth = (u64, u64);

/// `a + b` modulo 2^64.
pub open spec fn wrapped(a: u64, b: u64) -> u64 {
    ((a + b) % 0x1_0000_0000_0000_0000) as u64
}

/// The transport names the manager answers for, given which optional
/// transports are on.
pub open spec fn supported_names(quic: bool, websocket: bool, dns: bool) -> Seq<Seq<char>> {
    seq!["tcp"@] + (if quic {
        seq!["quic"@, "quic-v1"@]
    } else {
        Seq::empty()
    }) + (if websocket {
        seq!["websocket"@, "ws"@, "wss"@]
    } else {
        Seq::empty()
    }) + (if dns {
        seq!["dns"@, "dns4"@, "dns6"@, "dnsaddr"@]
    } else {
        Seq::empty()
    })
}

/// The bytes sent and received of `es` added up, modulo 2^64.
pub open spec fn bandwidth_total(es: Seq<(String, Bandwidth)>) -> u64
    decreases es.len(),
{
    if es.len() == 0 {
        0
    } else {
        bandwidth_total(es.drop_last()).wrapping_add(es.last().1.0.wrapping_add(es.last().1.1))
    }
}

/// Which transports are configured, with per-transport traffic counters and
/// connection limits.
pub struct TransportManager {
    tcp_nodelay: Option<bool>,
    quic_enabled: bool,
    websocket_enabled: bool,
    dns_enabled: bool,
    transport_stats: Registry<u64>,
    connection_limits: Registry<u32>,
    bandwidth_stats: Registry<Bandwidth>,
}

impl TransportManager {
    pub closed spec fn wf(&self) -> bool {
        &&& self.transport_stats.wf()
        &&& self.connection_limits.wf()
        &&& self.bandwidth_stats.wf()
    }

    pub closed spec fn nodelay(&self) -> Option<bool> {
        self.tcp_nodelay
    }

    pub closed spec fn quic_on(&self) -> bool {
        self.quic_enabled
    }

    pub closed spec fn websocket_on(&self) -> bool {
        self.websocket_enabled
    }

    pub closed spec fn dns_on(&self) -> bool {
        self.dns_enabled
    }

    /// The traffic counters and flags, by name.
    pub closed spec fn stats(&self) -> Map<Seq<char>, u64> {
        self.transport_stats@
    }

    /// The connection limit of each transport, by name.
    pub closed spec fn limits(&self) -> Map<Seq<char>, u32> {
        self.connection_limits@
    }

    /// The bytes sent and received of each transport, by name.
    pub closed spec fn bandwidth(&self) -> Map<Seq<char>, Bandwidth> {
        self.bandwidth_stats@
    }

    /// Only TCP, with the default socket options, and no counters.
    pub fn new() -> (r: TransportManager)
        ensures
            r.wf(),
            r.nodelay() is None,
            !r.quic_on() && !r.websocket_on() && !r.dns_on(),
            r.stats() == Map::<Seq<char>, u64>::empty(),
            r.limits() == Map::<Seq<char>, u32>::empty(),
            r.bandwidth() == Map::<Seq<char>, Bandwidth>::empty(),
    {
        TransportManager {
            tcp_nodelay: None,
            quic_enabled: false,
            websocket_enabled: false,
            dns_enabled: false,
            transport_stats: Registry::new(),
            connection_limits: Registry::new(),
            bandwidth_stats: Registry::new(),
        }
    }

    fn set_flag(&mut self, name: &str, on: bool)
        requires
            old(self).wf(),
        ensures
            final(self).wf(),
            final(self).stats() == if on {
                old(self).stats().insert(name@, 1)
            } else {
                old(self).stats().remove(name@)
            },
            final(self).nodelay() == old(self).nodelay(),
            final(self).quic_on() == old(self).quic_on(),
            final(self).websocket_on() == old(self).websocket_on(),
            final(self).dns_on() == old(self).dns_on(),
            final(self).limits() == old(self).limits(),
            final(self).bandwidth() == old(self).bandwidth(),
    {
        if on {
            self.transport_stats.insert(name.to_owned(), 1);
        } else {
            self.transport_stats.remove(&name.to_owned());
        }
    }

    /// Uses TCP with the given no-delay option, and flags it in the stats.
    pub fn enable_tcp(&mut self, nodelay: bool)
        requires
            old(self).wf(),
        ensures
            final(self).wf(),
            final(self).nodelay() == Some(nodelay),
            final(self).stats() == old(self).stats().insert("tcp_enabled"@, 1),
            final(self).quic_on() == old(self).quic_on(),
            final(self).websocket_on() == old(self).websocket_on(),
            final(self).dns_on() == old(self).dns_on(),
            final(self).limits() == old(self).limits(),
            final(self).bandwidth() == old(self).bandwidth(),
    {
        self.tcp_nodelay = Some(nodelay);
        self.set_flag("tcp_enabled", true);
    }

    /// Back to the default TCP options, and the stats flag removed.
    pub fn disable_tcp(&mut self)
        requires
            old(self).wf(),
        ensures
            final(self).wf(),
            final(self).nodelay() is None,
            final(self).stats() == old(self).stats().remove("tcp_enabled"@),
            final(self).quic_on() == old(self).quic_on(),
            final(self).websocket_on() == old(self).websocket_on(),
            final(self).dns_on() == old(self).dns_on(),
            final(self).limits() == old(self).limits(),
            final(self).bandwidth() == old(self).bandwidth(),
    {
        self.tcp_nodelay = None;
        self.set_flag("tcp_enabled", false);
    }

    /// Sets the TCP no-delay option; a keep-alive, when given, is recorded
    /// in the stats.
    pub fn set_tcp_config(&mut self, nodelay: bool, keepalive: Option<u64>)
        requires
            old(self).wf(),
        ensures
            final(self).wf(),
            final(self).nodelay() == Some(nodelay),
            final(self).stats() == match keepalive {
                Some(k) => old(self).stats().insert("tcp_keepalive_secs"@, k),
                None => old(self).stats(),
            },
            final(self).quic_on() == old(self).quic_on(),
            final(self).websocket_on() == old(self).websocket_on(),
            final(self).dns_on() == old(self).dns_on(),
            final(self).limits() == old(self).limits(),
            final(self).bandwidth() == old(self).bandwidth(),
    {
        match keepalive {
            Some(k) => {
                self.transport_stats.insert("tcp_keepalive_secs".to_owned(), k);
            },
            None => {},
        }
        self.tcp_nodelay = Some(nodelay);
    }

    /// Turns QUIC on or off, with its stats flag.
    fn set_quic(&mut self, on: bool)
        requires
            old(self).wf(),
        ensures
            final(self).wf(),
            final(self).quic_on() == on,
            final(self).stats() == if on {
                old(self).stats().insert("quic_enabled"@, 1)
            } else {
                old(self).stats().remove("quic_enabled"@)
            },
            final(self).nodelay() == old(self).nodelay(),
            final(self).websocket_on() == old(self).websocket_on(),
            final(self).dns_on() == old(self).dns_on(),
            final(self).limits() == old(self).limits(),
            final(self).bandwidth() == old(self).bandwidth(),
    {
        self.quic_enabled = on;
        self.set_flag("quic_enabled", on);
    }

    /// Turns WebSocket on or off, with its stats flag.
    fn set_websocket(&mut self, on: bool)
        requires
            old(self).wf(),
        ensures
            final(self).wf(),
            final(self).websocket_on() == on,
            final(self).stats() == if on {
                old(self).stats().insert("websocket_enabled"@, 1)
            } else {
                old(self).stats().remove("websocket_enabled"@)
            },
            final(self).nodelay() == old(self).nodelay(),
            final(self).quic_on() == old(self).quic_on(),
            final(self).dns_on() == old(self).dns_on(),
            final(self).limits() == old(self).limits(),
            final(self).bandwidth() == old(self).bandwidth(),
    {
        self.websocket_enabled = on;
        self.set_flag("websocket_enabled", on);
    }

    /// Turns DNS resolution on or off, with its stats flag.
    fn set_dns(&mut self, on: bool)
        requires
            old(self).wf(),
        ensures
            final(self).wf(),
            final(self).dns_on() == on,
            final(self).stats() == if on {
                old(self).stats().insert("dns_enabled"@, 1)
            } else {
                old(self).stats().remove("dns_enabled"@)
            },
            final(self).nodelay() == old(self).nodelay(),
            final(self).quic_on() == old(self).quic_on(),
            final(self).websocket_on() == old(self).websocket_on(),
            final(self).limits() == old(self).limits(),
            final(self).bandwidth() == old(self).bandwidth(),
    {
        self.dns_enabled = on;
        self.set_flag("dns_enabled", on);
    }

    /// Turns QUIC on.
    pub fn enable_quic(&mut self)
        requires
            old(self).wf(),
        ensures
            final(self).wf(),
            final(self).quic_on(),
            final(self).stats() == old(self).stats().insert("quic_enabled"@, 1),
            final(self).nodelay() == old(self).nodelay(),
            final(self).websocket_on() == old(self).websocket_on(),
            final(self).dns_on() == old(self).dns_on(),
            final(self).limits() == old(self).limits(),
            final(self).bandwidth() == old(self).bandwidth(),
    {
        self.set_quic(true);
    }

    /// Turns QUIC off.
    pub fn disable_quic(&mut self)
        requires
            old(self).wf(),
        ensures
            final(self).wf(),
            !final(self).quic_on(),
            final(self).stats() == old(self).stats().remove("quic_enabled"@),
            final(self).nodelay() == old(self).nodelay(),
            final(self).websocket_on() == old(self).websocket_on(),
            final(self).dns_on() == old(self).dns_on(),
            final(self).limits() == old(self).limits(),
            final(self).bandwidth() == old(self).bandwidth(),
    {
        self.set_quic(false);
    }

    /// Turns WebSocket on.
    pub fn enable_websocket(&mut self)
        requires
            old(self).wf(),
        ensures
            final(self).wf(),
            final(self).websocket_on(),
            final(self).stats() == old(self).stats().insert("websocket_enabled"@, 1),
            final(self).nodelay() == old(self).nodelay(),
            final(self).quic_on() == old(self).quic_on(),
            final(self).dns_on() == old(self).dns_on(),
            final(self).limits() == old(self).limits(),
            final(self).bandwidth() == old(self).bandwidth(),
    {
        self.set_websocket(true);
    }

    /// Turns WebSocket off.
    pub fn disable_websocket(&mut self)
        requires
            old(self).wf(),
        ensures
            final(self).wf(),
            !final(self).websocket_on(),
            final(self).stats() == old(self).stats().remove("websocket_enabled"@),
            final(self).nodelay() == old(self).nodelay(),
            final(self).quic_on() == old(self).quic_on(),
            final(self).dns_on() == old(self).dns_on(),
            final(self).limits() == old(self).limits(),
            final(self).bandwidth() == old(self).bandwidth(),
    {
        self.set_websocket(false);
    }

    /// Turns DNS resolution on.
    pub fn enable_dns(&mut self)
        requires
            old(self).wf(),
        ensures
            final(self).wf(),
            final(self).dns_on(),
            final(self).stats() == old(self).stats().insert("dns_enabled"@, 1),
            final(self).nodelay() == old(self).nodelay(),
            final(self).quic_on() == old(self).quic_on(),
            final(self).websocket_on() == old(self).websocket_on(),
            final(self).limits() == old(self).limits(),
            final(self).bandwidth() == old(self).bandwidth(),
    {
        self.set_dns(true);
    }

    /// Turns DNS resolution off.
    pub fn disable_dns(&mut self)
        requires
            old(self).wf(),
        ensures
            final(self).wf(),
            !final(self).dns_on(),
            final(self).stats() == old(self).stats().remove("dns_enabled"@),
            final(self).nodelay() == old(self).nodelay(),
            final(self).quic_on() == old(self).quic_on(),
            final(self).websocket_on() == old(self).websocket_on(),
            final(self).limits() == old(self).limits(),
            final(self).bandwidth() == old(self).bandwidth(),
    {
        self.set_dns(false);
    }

    pub fn get_tcp_nodelay(&self) -> (r: Option<bool>)
        ensures
            r == self.nodelay(),
    {
        self.tcp_nodelay
    }

    pub fn is_quic_enabled(&self) -> (r: bool)
        ensures
            r == self.quic_on(),
    {
        self.quic_enabled
    }

    pub fn is_websocket_enabled(&self) -> (r: bool)
        ensures
            r == self.websocket_on(),
    {
        self.websocket_enabled
    }

    pub fn is_dns_enabled(&self) -> (r: bool)
        ensures
            r == self.dns_on(),
    {
        self.dns_enabled
    }

    /// "tcp", then the names of QUIC, WebSocket and DNS when they are on.
    pub fn get_supported_protocols(&self) -> (r: Vec<String>)
        ensures
            texts(r@) == supported_names(self.quic_on(), self.websocket_on(), self.dns_on()),
    {
        let mut names: Vec<String> = Vec::new();
        names.push("tcp".to_owned());
        if self.quic_enabled {
            names.push("quic".to_owned());
            names.push("quic-v1".to_owned());
        }
        if self.websocket_enabled {
            names.push("websocket".to_owned());
            names.push("ws".to_owned());
            names.push("wss".to_owned());
        }
        if self.dns_enabled {
            names.push("dns".to_owned());
            names.push("dns4".to_owned());
            names.push("dns6".to_owned());
            names.push("dnsaddr".to_owned());
        }
        proof {
            assert(texts(names@) =~= supported_names(self.quic_on(), self.websocket_on(), self.dns_on()));
        }
        names
    }

    /// Whether the transport called `transport_type` is on: TCP always, the
    /// others as configured, unknown names never.
    pub fn is_transport_enabled(&self, transport_type: &String) -> (r: bool)
        ensures
            r == supported_names(self.quic_on(), self.websocket_on(), self.dns_on()).contains(
                transport_type@,
            ),
    {
        let names = self.get_supported_protocols();
        let mut i: usize = 0;
        while i < names.len()
            invariant
                texts(names@) == supported_names(self.quic_on(), self.websocket_on(), self.dns_on()),
                i <= names@.len(),
                forall|j: int| 0 <= j < i ==> names@[j]@ != transport_type@,
            decreases names@.len() - i,
        {
            if names[i] == *transport_type {
                proof {
                    assert(texts(names@)[i as int] == transport_type@);
                }
                return true;
            }
            i = i + 1;
        }
        proof {
            let s = texts(names@);
            if s.contains(transport_type@) {
                let j = choose|j: int| 0 <= j < s.len() && s[j] == transport_type@;
                assert(names@[j]@ == transport_type@);
            }
        }
        false
    }

    /// Counts `bytes_transferred` against `transport_type`, in its traffic
    /// counter and its bytes sent; counters wrap around at 2^64.
    pub fn update_stats(&mut self, transport_type: String, bytes_transferred: u64)
        requires
            old(self).wf(),
        ensures
            final(self).wf(),
            final(self).stats() == old(self).stats().insert(
                transport_type@,
                wrapped(
                    if old(self).stats().contains_key(transport_type@) {
                        old(self).stats()[transport_type@]
                    } else {
                        0
                    },
                    bytes_transferred,
                ),
            ),
            final(self).bandwidth() == old(self).bandwidth().insert(
                transport_type@,
                if old(self).bandwidth().contains_key(transport_type@) {
                    (
                        wrapped(old(self).bandwidth()[transport_type@].0, bytes_transferred),
                        old(self).bandwidth()[transport_type@].1,
                    )
                } else {
                    (bytes_transferred, 0u64)
                },
            ),
            final(self).limits() == old(self).limits(),
            final(self).nodelay() == old(self).nodelay(),
            final(self).quic_on() == old(self).quic_on(),
            final(self).websocket_on() == old(self).websocket_on(),
            final(self).dns_on() == old(self).dns_on(),
    {
        let total = match self.transport_stats.get(&transport_type) {
            Some(t) => *t,
            None => 0,
        };
        self.transport_stats.insert(transport_type.clone(), total.wrapping_add(bytes_transferred));
        let (sent, received) = match self.bandwidth_stats.get(&transport_type) {
            Some(b) => *b,
            None => (0, 0),
        };
        self.bandwidth_stats.insert(transport_type, (sent.wrapping_add(bytes_transferred), received));
    }

    /// Adds to the bytes sent and received of `transport_type`; counters wrap
    /// around at 2^64.
    pub fn update_bandwidth_stats(&mut self, transport_type: String, bytes_sent: u64, bytes_received: u64)
        requires
            old(self).wf(),
        ensures
            final(self).wf(),
            final(self).bandwidth() == old(self).bandwidth().insert(
                transport_type@,
                if old(self).bandwidth().contains_key(transport_type@) {
                    (
                        wrapped(old(self).bandwidth()[transport_type@].0, bytes_sent),
                        wrapped(old(self).bandwidth()[transport_type@].1, bytes_received),
                    )
                } else {
                    (bytes_sent, bytes_received)
                },
            ),
            final(self).stats() == old(self).stats(),
            final(self).limits() == old(self).limits(),
            final(self).nodelay() == old(self).nodelay(),
            final(self).quic_on() == old(self).quic_on(),
            final(self).websocket_on() == old(self).websocket_on(),
            final(self).dns_on() == old(self).dns_on(),
    {
        let (sent, received) = match self.bandwidth_stats.get(&transport_type) {
            Some(b) => *b,
            None => (0, 0),
        };
        self.bandwidth_stats.insert(
            transport_type,
            (sent.wrapping_add(bytes_sent), received.wrapping_add(bytes_received)),
        );
    }

    /// Every traffic counter and flag, as (name, value) pairs.
    pub fn get_stats(&self) -> (r: Vec<(String, u64)>)
        requires
            self.wf(),
        ensures
            forall|i: int|
                0 <= i < r@.len() ==> self.stats().contains_key(#[trigger] r@[i].0@)
                    && self.stats()[r@[i].0@] == r@[i].1,
            forall|i: int, j: int| 0 <= i < j < r@.len() ==> r@[i].0@ != r@[j].0@,
            forall|k: Seq<char>|
                #[trigger] self.stats().contains_key(k) ==> exists|i: int| 0 <= i < r@.len() && r@[i].0@ == k,
    {
        self.transport_stats.entries()
    }

    /// The bytes sent and received of every transport, as (name, counters)
    /// pairs.
    pub fn get_bandwidth_stats(&self) -> (r: Vec<(String, Bandwidth)>)
        requires
            self.wf(),
        ensures
            forall|i: int|
                0 <= i < r@.len() ==> self.bandwidth().contains_key(#[trigger] r@[i].0@)
                    && self.bandwidth()[r@[i].0@] == r@[i].1,
            forall|i: int, j: int| 0 <= i < j < r@.len() ==> r@[i].0@ != r@[j].0@,
            forall|k: Seq<char>|
                #[trigger] self.bandwidth().contains_key(k) ==> exists|i: int|
                    0 <= i < r@.len() && r@[i].0@ == k,
    {
        self.bandwidth_stats.entries()
    }

    /// Forgets every traffic counter, flag and bandwidth counter.
    pub fn reset_stats(&mut self)
        requires
            old(self).wf(),
        ensures
            final(self).wf(),
            final(self).stats() == Map::<Seq<char>, u64>::empty(),
            final(self).bandwidth() == Map::<Seq<char>, Bandwidth>::empty(),
            final(self).limits() == old(self).limits(),
            final(self).nodelay() == old(self).nodelay(),
            final(self).quic_on() == old(self).quic_on(),
            final(self).websocket_on() == old(self).websocket_on(),
            final(self).dns_on() == old(self).dns_on(),
    {
        self.transport_stats.clear();
        self.bandwidth_stats.clear();
    }

    pub fn set_connection_limit(&mut self, transport_type: String, limit: u32)
        requires
            old(self).wf(),
        ensures
            final(self).wf(),
            final(self).limits() == old(self).limits().insert(transport_type@, limit),
            final(self).stats() == old(self).stats(),
            final(self).bandwidth() == old(self).bandwidth(),
            final(self).nodelay() == old(self).nodelay(),
            final(self).quic_on() == old(self).quic_on(),
            final(self).websocket_on() == old(self).websocket_on(),
            final(self).dns_on() == old(self).dns_on(),
    {
        self.connection_limits.insert(transport_type, limit);
    }

    pub fn get_connection_limit(&self, transport_type: String) -> (r: Option<u32>)
        requires
            self.wf(),
        ensures
            r is Some == self.limits().contains_key(transport_type@),
            r is Some ==> r->0 == self.limits()[transport_type@],
    {
        match self.connection_limits.get(&transport_type) {
            Some(l) => Some(*l),
            None => None,
        }
    }

    /// Every connection limit, as (transport, limit) pairs.
    pub fn get_connection_limits(&self) -> (r: Vec<(String, u32)>)
        requires
            self.wf(),
        ensures
            forall|i: int|
                0 <= i < r@.len() ==> self.limits().contains_key(#[trigger] r@[i].0@)
                    && self.limits()[r@[i].0@] == r@[i].1,
            forall|i: int, j: int| 0 <= i < j < r@.len() ==> r@[i].0@ != r@[j].0@,
            forall|k: Seq<char>|
                #[trigger] self.limits().contains_key(k) ==> exists|i: int| 0 <= i < r@.len() && r@[i].0@ == k,
    {
        self.connection_limits.entries()
    }

    pub fn remove_connection_limit(&mut self, transport_type: String) -> (r: bool)
        requires
            old(self).wf(),
        ensures
            final(self).wf(),
            r == old(self).limits().contains_key(transport_type@),
            final(self).limits() == old(self).limits().remove(transport_type@),
            final(self).stats() == old(self).stats(),
            final(self).bandwidth() == old(self).bandwidth(),
            final(self).nodelay() == old(self).nodelay(),
            final(self).quic_on() == old(self).quic_on(),
            final(self).websocket_on() == old(self).websocket_on(),
            final(self).dns_on() == old(self).dns_on(),
    {
        self.connection_limits.remove(&transport_type).is_some()
    }

    /// A summary in words: the supported transport names joined by ", ",
    /// their number, whether QUIC, WebSocket and DNS are on, and the total
    /// bytes sent and received over all transports (modulo 2^64), added up
    /// in the order of `get_bandwidth_stats`.
    pub fn get_transport_summary(&self) -> (r: Vec<(String, String)>)
        requires
            self.wf(),
        ensures
            r@.len() == 6,
            r@[0].0@ == "supported_protocols"@ && r@[0].1@ == join_spec(
                supported_names(self.quic_on(), self.websocket_on(), self.dns_on()),
                ", "@,
            ),
            r@[1].0@ == "protocol_count"@ && r@[1].1@ == decimal(
                supported_names(self.quic_on(), self.websocket_on(), self.dns_on()).len(),
            ),
            r@[2].0@ == "has_quic"@ && r@[2].1@ == bool_text_spec(self.quic_on()),
            r@[3].0@ == "has_websocket"@ && r@[3].1@ == bool_text_spec(self.websocket_on()),
            r@[4].0@ == "has_dns"@ && r@[4].1@ == bool_text_spec(self.dns_on()),
            r@[5].0@ == "total_bandwidth_bytes"@,
            exists|es: Seq<(String, Bandwidth)>|
                #![trigger bandwidth_total(es)]
                es.len() == self.bandwidth().dom().len() && (forall|i: int|
                    0 <= i < es.len() ==> self.bandwidth().contains_key(#[trigger] es[i].0@)
                        && self.bandwidth()[es[i].0@] == es[i].1) && r@[5].1@ == decimal(
                    bandwidth_total(es) as nat,
                ),
    {
        let names = self.get_supported_protocols();
        let entries = self.bandwidth_stats.entries();
        let mut total: u64 = 0;
        let mut i: usize = 0;
        while i < entries.len()
            invariant
                i <= entries@.len(),
                total == bandwidth_total(entries@.take(i as int)),
            decreases entries@.len() - i,
        {
            let (_, (sent, received)) = &entries[i];
            proof {
                assert(entries@.take(i + 1).drop_last() =~= entries@.take(i as int));
            }
            total = total.wrapping_add(sent.wrapping_add(*received));
            i = i + 1;
        }
        proof {
            assert(entries@.take(entries@.len() as int) =~= entries@);
            self.bandwidth_stats.lemma_finite();
            crate::protocols::lemma_listing_len(entries@, self.bandwidth());
            assert(bandwidth_total(entries@) == total);
        }
        let mut summary: Vec<(String, String)> = Vec::new();
        summary.push(("supported_protocols".to_owned(), join(&names, ", ")));
        summary.push(("protocol_count".to_owned(), decimal_text(names.len() as u64)));
        summary.push(("has_quic".to_owned(), bool_text(self.quic_enabled)));
        summary.push(("has_websocket".to_owned(), bool_text(self.websocket_enabled)));
        summary.push(("has_dns".to_owned(), bool_text(self.dns_enabled)));
        summary.push(("total_bandwidth_bytes".to_owned(), decimal_text(total)));
        proof {
            assert(names@.len() == texts(names@).len());
        }
        summary
    }

    /// The configuration in words: "tcp_enabled" is always "true", then
    /// whether QUIC, WebSocket and DNS are on, and "quic_configured" when
    /// QUIC is on.
    pub fn get_transport_info(&self) -> (r: Vec<(String, String)>)
        ensures
            r@.len() == if self.quic_on() {
                5int
            } else {
                4int
            },
            r@[0].0@ == "tcp_enabled"@ && r@[0].1@ == "true"@,
            r@[1].0@ == "quic_enabled"@ && r@[1].1@ == bool_text_spec(self.quic_on()),
            r@[2].0@ == "websocket_enabled"@ && r@[2].1@ == bool_text_spec(self.websocket_on()),
            r@[3].0@ == "dns_enabled"@ && r@[3].1@ == bool_text_spec(self.dns_on()),
            self.quic_on() ==> r@[4].0@ == "quic_configured"@ && r@[4].1@ == "true"@,
    {
        let mut info: Vec<(String, String)> = Vec::new();
        info.push(("tcp_enabled".to_owned(), "true".to_owned()));
        info.push(("quic_enabled".to_owned(), bool_text(self.quic_enabled)));
        info.push(("websocket_enabled".to_owned(), bool_text(self.websocket_enabled)));
        info.push(("dns_enabled".to_owned(), bool_text(self.dns_enabled)));
        if self.quic_enabled {
            info.push(("quic_configured".to_owned(), "true".to_owned()));
        }
        info
    }
}

} // verus!
