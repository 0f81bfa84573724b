//! What holds of the identities of generated nodes.

use vstd::prelude::*;
use vstd::utf8::encode_utf8;

use crate::canonical::domain_digest;
use crate::composition_model::{
    four_digits, instance_name, lowered, renames, route_name, scope_json, CallModel,
};
use crate::digest::hex_text;
use crate::graph::GraphModel;
use crate::graph_composition::RouteRename;
use crate::graph_node::{GraphRoute, RouteModel};
use crate::ordered::{find, find_is_exact, keys};
use crate::text::{ascii_utf8, bytes_precede, precedes, utf8_concat};

verus! {

proof fn prefix_keeps_order(prefix: Seq<u8>, a: Seq<u8>, b: Seq<u8>)
    requires
        bytes_precede(a, b),
    ensures
        bytes_precede(prefix + a, prefix + b),
    decreases prefix.len(),
{
    if prefix.len() == 0 {
        assert(prefix + a =~= a);
        assert(prefix + b =~= b);
    } else {
        prefix_keeps_order(prefix.drop_first(), a, b);
        assert((prefix + a).drop_first() =~= prefix.drop_first() + a);
        assert((prefix + b).drop_first() =~= prefix.drop_first() + b);
    }
}

proof fn first_difference_decides(a: Seq<u8>, b: Seq<u8>, k: int)
    requires
        0 <= k < a.len(),
        k < b.len(),
        forall|i: int| 0 <= i < k ==> #[trigger] a[i] == b[i],
        a[k] < b[k],
    ensures
        bytes_precede(a, b),
    decreases k,
{
    if k > 0 {
        assert(a[0] == b[0]);
        assert forall|i: int| 0 <= i < k - 1 implies #[trigger] a.drop_first()[i]
            == b.drop_first()[i] by {
            assert(a[i + 1] == b[i + 1]);
        }
        first_difference_decides(a.drop_first(), b.drop_first(), k - 1);
    }
}

proof fn digit_order(i: int, j: int)
    requires
        0 <= i < j < 10000,
    ensures
        ({
            let (a, b, c, d) = (i / 1000 % 10, i / 100 % 10, i / 10 % 10, i % 10);
            let (e, f, g, h) = (j / 1000 % 10, j / 100 % 10, j / 10 % 10, j % 10);
            ||| a < e
            ||| a == e && b < f
            ||| a == e && b == f && c < g
            ||| a == e && b == f && c == g && d < h
        }),
{
    let (x, y) = (i / 10, j / 10);
    assert(i == 10 * x + i % 10);
    assert(j == 10 * y + j % 10);
    let (z, w) = (i / 100, j / 100);
    assert(x == 10 * z + x % 10);
    assert(y == 10 * w + y % 10);
    let (u, v) = (i / 1000, j / 1000);
    assert(z == 10 * u + z % 10);
    assert(w == 10 * v + w % 10);
    assert(u % 10 == u);
    assert(v % 10 == v);
}

proof fn four_digit_bytes(n: int)
    requires
        0 <= n < 10000,
    ensures
        encode_utf8(four_digits(n)).len() == 4,
        encode_utf8(four_digits(n))[0] == 48 + n / 1000 % 10,
        encode_utf8(four_digits(n))[1] == 48 + n / 100 % 10,
        encode_utf8(four_digits(n))[2] == 48 + n / 10 % 10,
        encode_utf8(four_digits(n))[3] == 48 + n % 10,
{
    let text = four_digits(n);
    assert(text[0] == ((48 + n / 1000 % 10) as u8) as char);
    assert(text[1] == ((48 + n / 100 % 10) as u8) as char);
    assert(text[2] == ((48 + n / 10 % 10) as u8) as char);
    assert(text[3] == ((48 + n % 10) as u8) as char);
    ascii_utf8(text);
    assert(encode_utf8(text)[0] == text[0] as u8);
    assert(encode_utf8(text)[1] == text[1] as u8);
    assert(encode_utf8(text)[2] == text[2] as u8);
    assert(encode_utf8(text)[3] == text[3] as u8);
}

proof fn four_digits_keep_order(i: int, j: int)
    requires
        0 <= i < j < 10000,
    ensures
        bytes_precede(encode_utf8(four_digits(i)), encode_utf8(four_digits(j))),
{
    four_digit_bytes(i);
    four_digit_bytes(j);
    digit_order(i, j);
    let (a, b) = (encode_utf8(four_digits(i)), encode_utf8(four_digits(j)));
    if a[0] < b[0] {
        first_difference_decides(a, b, 0);
    } else if a[1] < b[1] {
        first_difference_decides(a, b, 1);
    } else if a[2] < b[2] {
        first_difference_decides(a, b, 2);
    } else {
        first_difference_decides(a, b, 3);
    }
}

/// The generated nodes of one iteration stand in the order of the nodes of the
/// template, so that updates reach the reducer in that order.
pub proof fn instances_keep_the_template_order(
    parent: GraphModel,
    call: CallModel,
    iteration: u16,
    i: int,
    j: int,
)
    requires
        0 <= i < j < 10000,
        instance_name(parent, call, iteration, i) is Some,
        instance_name(parent, call, iteration, j) is Some,
    ensures
        precedes(
            instance_name(parent, call, iteration, i)->0,
            instance_name(parent, call, iteration, j)->0,
        ),
{
    let digest = domain_digest(Seq::empty(), scope_json(parent, call, iteration))->0;
    let prefix = "skc-"@ + hex_text(digest) + seq!['-'];
    utf8_concat(prefix, four_digits(i));
    utf8_concat(prefix, four_digits(j));
    four_digits_keep_order(i, j);
    prefix_keeps_order(
        encode_utf8(prefix),
        encode_utf8(four_digits(i)),
        encode_utf8(four_digits(j)),
    );
}

proof fn renames_are_exact(generated: Seq<char>, routes: Seq<RouteModel>, n: nat)
    requires
        n <= routes.len(),
        renames(generated, routes, n) is Some,
    ensures
        renames(generated, routes, n)->0.len() == n,
        forall|k: int|
            0 <= k < n ==> (#[trigger] renames(generated, routes, n)->0[k]).source
                == routes[k].route_id && Some(renames(generated, routes, n)->0[k].generated)
                == route_name(generated, routes[k].route_id),
    decreases n,
{
    if n > 0 {
        renames_are_exact(generated, routes, (n - 1) as nat);
        let front = renames(generated, routes, (n - 1) as nat)->0;
        let all = renames(generated, routes, n)->0;
        assert forall|k: int| 0 <= k < n implies (#[trigger] all[k]).source == routes[k].route_id
            && Some(all[k].generated) == route_name(generated, routes[k].route_id) by {
            if k < n - 1 {
                assert(all[k] == front[k]);
            }
        }
    }
}

/// A generated node names the node, the call and the iteration that it comes
/// from, and has a route for exactly the routes of that node.
pub proof fn instance_names_its_source(
    parent: GraphModel,
    call: CallModel,
    iteration: u16,
    ordinal: int,
    route: Seq<char>,
)
    requires
        0 <= ordinal < call.subgraph.graph.nodes.len(),
        lowered(parent, call, iteration, ordinal) is Some,
    ensures
        ({
            let entry = lowered(parent, call, iteration, ordinal)->0;
            let node = call.subgraph.graph.nodes[ordinal];
            let found = find::<RouteRename>(entry.source.routes, route);
            &&& Some(entry.generated) == instance_name(parent, call, iteration, ordinal)
            &&& entry.source.node_id == node.node_id
            &&& entry.source.call_site == call.node_id
            &&& entry.source.iteration == iteration
            &&& found is Some <==> keys::<GraphRoute>(node.routes).contains(route)
            &&& found matches Some(rename) ==> Some(rename.generated) == route_name(
                entry.generated,
                route,
            )
        }),
{
    let entry = lowered(parent, call, iteration, ordinal)->0;
    let node = call.subgraph.graph.nodes[ordinal];
    let routes = entry.source.routes;
    renames_are_exact(entry.generated, node.routes, node.routes.len());
    find_is_exact::<RouteRename>(routes, route);
    assert(keys::<RouteRename>(routes) =~= keys::<GraphRoute>(node.routes));
    match find::<RouteRename>(routes, route) {
        Some(rename) => {
            let k = choose|k: int| 0 <= k < routes.len() && routes[k] == rename;
            assert(routes[k].source == node.routes[k].route_id);
        },
        None => {},
    }
}

} // verus!
