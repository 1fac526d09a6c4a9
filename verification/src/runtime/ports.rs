//! Choosing a free port for a new model runner.
use vstd::prelude::*;

use crate::runtime::fetch::{after_last, after_last_exec};
use crate::runtime::node::{parse_port, parse_u16};
use crate::text::{find_char, find_char_exec, slice_chars, string_of};

verus! {

/// The port a runner endpoint names: the text after its last `:` up to the first
/// `/`, read as a port number.
pub open spec fn endpoint_port(endpoint: Seq<char>) -> Option<u16> {
    let tail = after_last(endpoint, ':');
    parse_u16(tail.take(find_char(tail, '/') as int))
}

/// Some endpoint uses port `p`.
pub open spec fn port_used(endpoints: Seq<String>, p: u16) -> bool {
    exists|i: int| 0 <= i < endpoints.len() && endpoint_port(endpoints[i]@) == Some(p)
}

/// The port of an endpoint, if it names one.
pub fn port_of_endpoint(endpoint: &str) -> (r: Option<u16>)
    ensures
        r == endpoint_port(endpoint@),
{
    let c = crate::text::chars_of(endpoint);
    let tail = after_last_exec(&c, ':');
    let k = find_char_exec(&tail, '/');
    let head = slice_chars(&tail, 0, k);
    assert(head@ =~= tail@.take(k as int));
    let s = string_of(&head);
    parse_port(s.as_str())
}

/// The first port from `base` on that no running endpoint uses.
pub fn next_available_port(endpoints: &Vec<String>, base: u16) -> (p: u16)
    requires
        exists|q: u16| base <= q && !port_used(endpoints@, q),
    ensures
        base <= p,
        !port_used(endpoints@, p),
        forall|q: u16| base <= q < p ==> port_used(endpoints@, q),
{
    let mut used: Vec<u16> = Vec::new();
    let n = endpoints.len();
    for i in 0..n
        invariant
            n == endpoints@.len(),
            forall|q: u16| #[trigger] used@.contains(q) <==> exists|j: int| 0 <= j < i && endpoint_port(endpoints@[j]@) == Some(q),
    {
        match port_of_endpoint(endpoints[i].as_str()) {
            Some(q) => {
                let ghost before = used@;
                used.push(q);
                assert forall|x: u16| #[trigger] used@.contains(x) <==> exists|j: int| 0 <= j < i + 1 && endpoint_port(endpoints@[j]@) == Some(x) by {
                    if used@.contains(x) {
                        if x != q {
                            assert(before.contains(x)) by {
                                let k = choose|k: int| 0 <= k < used@.len() && used@[k] == x;
                                assert(before[k] == x);
                            }
                        } else {
                            assert(endpoint_port(endpoints@[i as int]@) == Some(x));
                        }
                    }
                    if exists|j: int| 0 <= j < i + 1 && endpoint_port(endpoints@[j]@) == Some(x) {
                        let j = choose|j: int| 0 <= j < i + 1 && endpoint_port(endpoints@[j]@) == Some(x);
                        if j < i {
                            assert(before.contains(x));
                            let k = choose|k: int| 0 <= k < before.len() && before[k] == x;
                            assert(used@[k] == x);
                        } else {
                            assert(used@[before.len() as int] == x);
                        }
                    }
                }
            },
            None => {
                assert forall|x: u16| #[trigger] used@.contains(x) <==> exists|j: int| 0 <= j < i + 1 && endpoint_port(endpoints@[j]@) == Some(x) by {
                    if exists|j: int| 0 <= j < i + 1 && endpoint_port(endpoints@[j]@) == Some(x) {
                        let j = choose|j: int| 0 <= j < i + 1 && endpoint_port(endpoints@[j]@) == Some(x);
                        assert(j != i);
                    }
                }
            },
        }
    }
    let mut port = base;
    loop
        invariant
            base <= port,
            forall|q: u16| #[trigger] used@.contains(q) <==> port_used(endpoints@, q),
            forall|q: u16| base <= q < port ==> port_used(endpoints@, q),
            exists|q: u16| base <= q && !port_used(endpoints@, q),
        decreases 65535 - port,
    {
        let mut taken = false;
        let m = used.len();
        for j in 0..m
            invariant
                m == used@.len(),
                !taken ==> forall|k: int| 0 <= k < j ==> used@[k] != port,
                taken ==> used@.contains(port),
        {
            if used[j] == port {
                taken = true;
            }
        }
        if !taken {
            assert(!used@.contains(port));
            return port;
        }
        assert(port_used(endpoints@, port));
        assert(port < 65535) by {
            let q = choose|q: u16| base <= q && !port_used(endpoints@, q);
            if port == 65535 {
                assert(q <= port);
                if q < port {
                    assert(port_used(endpoints@, q));
                }
            }
        }
        port = port + 1;
    }
}

} // verus!
