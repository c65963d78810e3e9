//! Router assembly: the order in which the declared routes reach the router.
//!
//! The bare route fragments are applied first, in the order in which they
//! were collected, then the controllers' sub-routers are merged, in their
//! order. Where two bindings claim the same path and method, the one applied
//! last holds.

use crate::declare::{ControllerItem, ControllerItemView, ControllerPlan};
use crate::route::{RouteBinding, RouteBindingView};
use crate::text::str_eq;
use vstd::prelude::*;
use vstd::string::*;

verus! {

/// The bindings of all the fragments, in order.
pub open spec fn flattened(fragments: Seq<Seq<RouteBindingView>>) -> Seq<RouteBindingView>
    decreases fragments.len(),
{
    if fragments.len() == 0 {
        Seq::empty()
    } else {
        flattened(fragments.drop_last()) + fragments.last()
    }
}

/// The bindings of the assembled router, in the order of application.
pub open spec fn assembled(
    routes: Seq<Seq<RouteBindingView>>,
    controllers: Seq<Seq<RouteBindingView>>,
) -> Seq<RouteBindingView> {
    flattened(routes) + flattened(controllers)
}

/// The bindings of a controller's sub-router: those of its routes, in the
/// order of its methods.
pub open spec fn sub_router(items: Seq<ControllerItemView>) -> Seq<RouteBindingView>
    decreases items.len(),
{
    if items.len() == 0 {
        Seq::empty()
    } else {
        match items.last() {
            ControllerItemView::Route(plan) => sub_router(items.drop_last()) + plan.routes,
            ControllerItemView::Plain => sub_router(items.drop_last()),
        }
    }
}

/// The handler that holds a path and a method among the first `n` bindings:
/// that of the last binding for them.
pub open spec fn holder(
    table: Seq<RouteBindingView>,
    path: Seq<char>,
    method: Seq<char>,
    n: int,
) -> Option<Seq<char>>
    decreases n,
{
    if n <= 0 {
        None
    } else if table[n - 1].path == path && table[n - 1].method == method {
        Some(table[n - 1].handler)
    } else {
        holder(table, path, method, n - 1)
    }
}

/// Adds copies of the given bindings at the end of a table.
pub fn apply(table: &mut Vec<RouteBinding>, fragment: &Vec<RouteBinding>)
    ensures
        final(table).deep_view() == old(table).deep_view() + fragment.deep_view(),
{
    let ghost before = table.deep_view();
    let mut i: usize = 0;
    proof {
        assert(fragment.deep_view().take(0) =~= Seq::<RouteBindingView>::empty());
        assert(before + Seq::<RouteBindingView>::empty() =~= before);
    }
    while i < fragment.len()
        invariant
            i <= fragment.len(),
            table.deep_view() == before + fragment.deep_view().take(i as int),
        decreases fragment.len() - i,
    {
        let ghost so_far = table.deep_view();
        let b = RouteBinding {
            path: fragment[i].path.clone(),
            method: fragment[i].method.clone(),
            handler: fragment[i].handler.clone(),
        };
        table.push(b);
        proof {
            assert(table.deep_view() =~= so_far.push(b.deep_view()));
            assert(fragment.deep_view().take(i + 1) =~= fragment.deep_view().take(i as int).push(
                fragment.deep_view()[i as int],
            ));
            assert(table.deep_view() =~= before + fragment.deep_view().take(i + 1));
        }
        i += 1;
    }
    proof {
        assert(fragment.deep_view().take(i as int) =~= fragment.deep_view());
    }
}

/// Adds the bindings of all the fragments, in order, at the end of a table.
pub fn apply_all(table: &mut Vec<RouteBinding>, fragments: &Vec<Vec<RouteBinding>>)
    ensures
        final(table).deep_view() == old(table).deep_view() + flattened(fragments.deep_view()),
{
    let ghost before = table.deep_view();
    let mut i: usize = 0;
    proof {
        assert(before + flattened(fragments.deep_view().take(0)) =~= before);
    }
    while i < fragments.len()
        invariant
            i <= fragments.len(),
            table.deep_view() == before + flattened(fragments.deep_view().take(i as int)),
        decreases fragments.len() - i,
    {
        proof {
            let next = fragments.deep_view().take(i + 1);
            assert(next.drop_last() =~= fragments.deep_view().take(i as int));
            assert(next.last() == fragments[i as int].deep_view());
        }
        apply(table, &fragments[i]);
        proof {
            assert(table.deep_view() =~= before + flattened(fragments.deep_view().take(i + 1)));
        }
        i += 1;
    }
    proof {
        assert(fragments.deep_view().take(i as int) =~= fragments.deep_view());
    }
}

/// The bindings of the assembled router: those of the bare route fragments,
/// in order, then those of the controllers, in order.
pub fn collect_router(routes: &Vec<Vec<RouteBinding>>, controllers: &Vec<Vec<RouteBinding>>) -> (table:
    Vec<RouteBinding>)
    ensures
        table.deep_view() == assembled(routes.deep_view(), controllers.deep_view()),
{
    let mut table: Vec<RouteBinding> = Vec::new();
    proof {
        assert(table.deep_view() =~= Seq::<RouteBindingView>::empty());
    }
    apply_all(&mut table, routes);
    proof {
        assert(table.deep_view() =~= flattened(routes.deep_view()));
    }
    apply_all(&mut table, controllers);
    table
}

/// The bindings of a controller's sub-router.
pub fn collect_routes(plan: &ControllerPlan) -> (table: Vec<RouteBinding>)
    ensures
        table.deep_view() == sub_router(plan.deep_view().items),
{
    let mut table: Vec<RouteBinding> = Vec::new();
    let mut i: usize = 0;
    proof {
        assert(table.deep_view() =~= Seq::<RouteBindingView>::empty());
    }
    while i < plan.items.len()
        invariant
            i <= plan.items.len(),
            table.deep_view() == sub_router(plan.items.deep_view().take(i as int)),
        decreases plan.items.len() - i,
    {
        proof {
            let next = plan.items.deep_view().take(i + 1);
            assert(next.drop_last() =~= plan.items.deep_view().take(i as int));
            assert(next.last() == plan.items[i as int].deep_view());
        }
        match &plan.items[i] {
            ControllerItem::Route(route) => {
                apply(&mut table, &route.routes);
            },
            ControllerItem::Plain => {},
        }
        i += 1;
    }
    proof {
        assert(plan.items.deep_view().take(i as int) =~= plan.items.deep_view());
    }
    table
}

/// The handler that holds a path and a method in a table of bindings, if any
/// binding is for them.
pub fn resolve<'a>(table: &'a Vec<RouteBinding>, path: &str, method: &str) -> (found: Option<
    &'a String,
>)
    ensures
        found.deep_view() == holder(table.deep_view(), path@, method@, table.len() as int),
{
    let mut i: usize = table.len();
    while i > 0
        invariant
            i <= table.len(),
            holder(table.deep_view(), path@, method@, table.len() as int) == holder(
                table.deep_view(),
                path@,
                method@,
                i as int,
            ),
        decreases i,
    {
        let b = &table[i - 1];
        if str_eq(b.path.as_str(), path) && str_eq(b.method.as_str(), method) {
            return Some(&b.handler);
        }
        i -= 1;
    }
    None
}

/// A binding applied later takes the place of an earlier one for the same
/// path and method: after one more binding, its path and method are held by
/// its handler, and every other pair is held as before.
pub proof fn lemma_last_applied_holds(
    table: Seq<RouteBindingView>,
    last: RouteBindingView,
    path: Seq<char>,
    method: Seq<char>,
)
    ensures
        holder(table.push(last), last.path, last.method, table.len() as int + 1) == Some(
            last.handler,
        ),
        (path != last.path || method != last.method) ==> holder(
            table.push(last),
            path,
            method,
            table.len() as int + 1,
        ) == holder(table, path, method, table.len() as int),
{
    let t = table.push(last);
    assert(t[table.len() as int] == last);
    if path != last.path || method != last.method {
        lemma_holder_prefix(table, t, path, method, table.len() as int);
    }
}

/// Tables that agree on their first `n` bindings have the same holders among
/// them.
pub proof fn lemma_holder_prefix(
    a: Seq<RouteBindingView>,
    b: Seq<RouteBindingView>,
    path: Seq<char>,
    method: Seq<char>,
    n: int,
)
    requires
        0 <= n <= a.len(),
        n <= b.len(),
        forall|i: int| 0 <= i < n ==> a[i] == b[i],
    ensures
        holder(a, path, method, n) == holder(b, path, method, n),
    decreases n,
{
    if n > 0 {
        lemma_holder_prefix(a, b, path, method, n - 1);
    }
}

} // verus!
