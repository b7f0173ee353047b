//! From a plan to a document: for each route its log and the log of the way
//! back, then a sheet for each diversion, then a sheet for each hold.
//!
//! The wind triangles are solved outside this library. The planner says
//! which triangles a plan needs, in order, and makes the document from the
//! plan and the solutions in that order.

use crate::calc::{
    convert_velocity, normalize, triangles_view, wind_of, Degree, Triangle, WindTriangle,
    WindTriangleModel,
};
use crate::definition::{Detail, Diversion, FontType, Hold, Leg as PlanLeg, Plan, Route};
use crate::diversion::{create_wind_table, diversion_triangles, sheet_triangles, wind_table_ops};
use crate::fixed::{from_int, ONE};
use crate::hold::{create_hold, hold_ops, hold_triangles, triangles_of, HoldTriangles};
use crate::pdf::builder::{
    base_objects, document_objects, page_entries, pages_view, PDFDocumentBuilder, PageModel,
};
use crate::pdf::content::A5;
use crate::pdf::document::PDFDocument;
use crate::pdf::object::{point, OpView, Value};
use crate::route::{
    convert_leg, converted, create_plog, leg_triangle, legs_view, plog_ops, rev_leg,
    reverse_leg_triangle, reverse_triangle_of, reversed, triangle_of, Leg, LegModel,
};
use vstd::prelude::*;
use vstd::slice::slice_subrange;

verus! {

/// How many wind triangles a diversion sheet needs.
pub const SHEET_TRIANGLES: usize = 72;

/// How many wind triangles the sheet of a hold needs.
pub const HOLD_TRIANGLES: usize = 3;

/// The wind triangles of a route: those of its legs in their order, then
/// those of the legs flown the other way, the last leg first.
pub open spec fn route_queries(legs: Seq<PlanLeg>) -> Seq<WindTriangleModel> {
    Seq::new(
        2 * legs.len(),
        |i: int|
            if i < legs.len() {
                triangle_of(legs[i])
            } else {
                reverse_triangle_of(legs[2 * legs.len() - 1 - i])
            },
    )
}

/// The wind triangles of the first `count` routes.
pub open spec fn routes_queries(routes: Seq<Route>, count: nat) -> Seq<WindTriangleModel>
    decreases count,
{
    if count == 0 {
        Seq::empty()
    } else {
        routes_queries(routes, (count - 1) as nat) + route_queries(routes[count - 1].legs@)
    }
}

/// The wind triangles of the first `count` diversions.
pub open spec fn diversions_queries(diversions: Seq<Diversion>, count: nat) -> Seq<
    WindTriangleModel,
>
    decreases count,
{
    if count == 0 {
        Seq::empty()
    } else {
        diversions_queries(diversions, (count - 1) as nat) + sheet_triangles(
            diversions[count - 1].aircraft_speed as int,
            wind_of(diversions[count - 1].wind),
        )
    }
}

/// The wind triangles of the first `count` holds.
pub open spec fn holds_queries(holds: Seq<Hold>, count: nat) -> Seq<WindTriangleModel>
    decreases count,
{
    if count == 0 {
        Seq::empty()
    } else {
        holds_queries(holds, (count - 1) as nat) + triangles_of(holds[count - 1])
    }
}

/// The wind triangles that a plan needs, in the order that their solutions
/// are asked for: those of the routes, of the diversions, and of the holds.
pub open spec fn plan_queries(plan: Plan) -> Seq<WindTriangleModel> {
    routes_queries(plan.routes@, plan.routes@.len()) + diversions_queries(
        plan.diversions@,
        plan.diversions@.len(),
    ) + holds_queries(plan.holds@, plan.holds@.len())
}

/// Adding triangles to a list adds what they stand for.
proof fn views_append(a: Seq<WindTriangle>, b: Seq<WindTriangle>)
    ensures
        triangles_view(a + b) == triangles_view(a) + triangles_view(b),
{
    assert(triangles_view(a + b) =~= triangles_view(a) + triangles_view(b));
}

/// The wind triangles of a route.
pub fn route_triangles(route: &Route) -> (queries: Vec<WindTriangle>)
    ensures
        triangles_view(queries@) == route_queries(route.legs@),
{
    let legs = &route.legs;
    let n: usize = legs.len();
    let ghost all = route_queries(legs@);
    let mut queries: Vec<WindTriangle> = Vec::new();
    let mut i: usize = 0;
    while i < n
        invariant
            i <= n,
            n == legs@.len(),
            all == route_queries(legs@),
            queries@.len() == i,
            forall|k: int| 0 <= k < i ==> (#[trigger] queries@[k])@ == all[k],
        decreases n - i,
    {
        queries.push(leg_triangle(&legs[i]));
        i += 1;
    }
    let mut j: usize = 0;
    while j < n
        invariant
            j <= n,
            n == legs@.len(),
            all == route_queries(legs@),
            queries@.len() == n + j,
            forall|k: int| 0 <= k < n + j ==> (#[trigger] queries@[k])@ == all[k],
        decreases n - j,
    {
        queries.push(reverse_leg_triangle(&legs[n - 1 - j]));
        j += 1;
    }
    assert(triangles_view(queries@) =~= all);
    queries
}

/// The wind triangles that a plan needs, in the order that their solutions
/// are asked for.
pub fn planning_queries(plan: &Plan) -> (queries: Vec<WindTriangle>)
    ensures
        triangles_view(queries@) == plan_queries(*plan),
{
    let mut queries: Vec<WindTriangle> = Vec::new();
    assert(triangles_view(queries@) =~= routes_queries(plan.routes@, 0));
    let mut r: usize = 0;
    while r < plan.routes.len()
        invariant
            r <= plan.routes.len(),
            triangles_view(queries@) == routes_queries(plan.routes@, r as nat),
        decreases plan.routes.len() - r,
    {
        let mut more = route_triangles(&plan.routes[r]);
        proof {
            views_append(queries@, more@);
        }
        queries.append(&mut more);
        r += 1;
    }
    let ghost routes = queries@;
    let mut d: usize = 0;
    assert(queries@ =~= routes + Seq::<WindTriangle>::empty());
    let ghost mut added: Seq<WindTriangle> = Seq::empty();
    assert(triangles_view(added) =~= diversions_queries(plan.diversions@, 0));
    while d < plan.diversions.len()
        invariant
            d <= plan.diversions.len(),
            queries@ == routes + added,
            triangles_view(added) == diversions_queries(plan.diversions@, d as nat),
        decreases plan.diversions.len() - d,
    {
        let diversion = &plan.diversions[d];
        let wind = convert_velocity(&diversion.wind);
        let mut more = diversion_triangles(diversion.aircraft_speed, &wind);
        proof {
            views_append(added, more@);
            assert(routes + (added + more@) =~= routes + added + more@);
            added = added + more@;
        }
        queries.append(&mut more);
        d += 1;
    }
    let ghost diversions = added;
    let mut h: usize = 0;
    let ghost mut held: Seq<WindTriangle> = Seq::empty();
    assert(queries@ =~= routes + diversions + held);
    assert(triangles_view(held) =~= holds_queries(plan.holds@, 0));
    while h < plan.holds.len()
        invariant
            h <= plan.holds.len(),
            queries@ == routes + diversions + held,
            triangles_view(held) == holds_queries(plan.holds@, h as nat),
        decreases plan.holds.len() - h,
    {
        let mut more = hold_triangles(&plan.holds[h]);
        proof {
            views_append(held, more@);
            assert(routes + diversions + (held + more@) =~= routes + diversions + held + more@);
            held = held + more@;
        }
        queries.append(&mut more);
        h += 1;
    }
    proof {
        views_append(routes, diversions);
        views_append(routes + diversions, held);
    }
    queries
}

/// A page of the document: an A5 page with the shared resources, and the
/// operators drawn on it.
pub open spec fn sheet(ops: Seq<OpView>) -> PageModel {
    PageModel { dict: page_entries(point(A5), 5), ops }
}

/// The legs of a route as they are logged, each with its solved triangle.
pub open spec fn forward(legs: Seq<PlanLeg>, solved: Seq<Triangle>) -> Seq<LegModel> {
    Seq::new(legs.len(), |i: int| converted(legs[i], solved[i]))
}

/// The legs of a route flown the other way, the last leg first, each with
/// the triangle solved for it.
pub open spec fn backward(legs: Seq<PlanLeg>, solved: Seq<Triangle>) -> Seq<LegModel> {
    let n = legs.len();
    Seq::new(n, |j: int| reversed(forward(legs, solved)[n - 1 - j], solved[n + j]))
}

/// The two pages of a route: its log, and the log of the way back.
pub open spec fn route_pages(route: Route, detail: Detail, solved: Seq<Triangle>) -> Seq<
    PageModel,
> {
    seq![
        sheet(plog_ops(forward(route.legs@, solved), route.notes@, detail, point(A5))),
        sheet(plog_ops(backward(route.legs@, solved), route.notes@, detail, point(A5))),
    ]
}

/// The pages of the first `count` routes. Each route has the solutions at
/// the places of its own wind triangles.
pub open spec fn routes_pages(
    routes: Seq<Route>,
    detail: Detail,
    solved: Seq<Triangle>,
    count: nat,
) -> Seq<PageModel>
    decreases count,
{
    if count == 0 {
        Seq::empty()
    } else {
        let at = routes_queries(routes, (count - 1) as nat).len() as int;
        routes_pages(routes, detail, solved, (count - 1) as nat) + route_pages(
            routes[count - 1],
            detail,
            solved.subrange(at, at + 2 * routes[count - 1].legs@.len()),
        )
    }
}

/// The page of a diversion.
pub open spec fn diversion_page(diversion: Diversion, solved: Seq<Triangle>) -> PageModel {
    sheet(
        wind_table_ops(
            diversion.aircraft_speed as int,
            normalize(diversion.variation * ONE),
            wind_of(diversion.wind),
            solved,
            point(A5),
        ),
    )
}

/// The pages of the first `count` diversions, whose solutions start at the
/// place `first`.
pub open spec fn diversions_pages(
    diversions: Seq<Diversion>,
    solved: Seq<Triangle>,
    first: int,
    count: nat,
) -> Seq<PageModel>
    decreases count,
{
    if count == 0 {
        Seq::empty()
    } else {
        let at = first + SHEET_TRIANGLES * (count - 1);
        diversions_pages(diversions, solved, first, (count - 1) as nat).push(
            diversion_page(diversions[count - 1], solved.subrange(at, at + SHEET_TRIANGLES)),
        )
    }
}

/// The solved triangles of a hold, from three solutions in their order.
pub open spec fn hold_solved(solved: Seq<Triangle>) -> HoldTriangles {
    HoldTriangles { inbound: solved[0], outbound: solved[1], gate: solved[2] }
}

/// The page of a hold.
pub open spec fn hold_page(hold: Hold, solved: Seq<Triangle>) -> PageModel {
    sheet(hold_ops(hold, hold_solved(solved), point(A5)))
}

/// The pages of the first `count` holds, whose solutions start at the place
/// `first`.
pub open spec fn holds_pages(holds: Seq<Hold>, solved: Seq<Triangle>, first: int, count: nat)
    -> Seq<PageModel>
    decreases count,
{
    if count == 0 {
        Seq::empty()
    } else {
        let at = first + HOLD_TRIANGLES * (count - 1);
        holds_pages(holds, solved, first, (count - 1) as nat).push(
            hold_page(holds[count - 1], solved.subrange(at, at + HOLD_TRIANGLES)),
        )
    }
}

/// The pages of a plan: two for each route, one for each diversion, one for
/// each hold.
pub open spec fn plan_pages(plan: Plan, solved: Seq<Triangle>) -> Seq<PageModel> {
    let routes = routes_queries(plan.routes@, plan.routes@.len()).len() as int;
    let diversions = routes + SHEET_TRIANGLES * plan.diversions@.len();
    routes_pages(plan.routes@, plan.detail, solved, plan.routes@.len()) + diversions_pages(
        plan.diversions@,
        solved,
        routes,
        plan.diversions@.len(),
    ) + holds_pages(plan.holds@, solved, diversions, plan.holds@.len())
}

/// A plan has two pages for each route and one for each diversion and each
/// hold.
pub proof fn plan_pages_len(plan: Plan, solved: Seq<Triangle>)
    ensures
        plan_pages(plan, solved).len() == 2 * plan.routes@.len() + plan.diversions@.len()
            + plan.holds@.len(),
{
    let routes = routes_queries(plan.routes@, plan.routes@.len()).len() as int;
    let diversions = routes + SHEET_TRIANGLES * plan.diversions@.len();
    routes_pages_len(plan.routes@, plan.detail, solved, plan.routes@.len());
    diversions_pages_len(plan.diversions@, solved, routes, plan.diversions@.len());
    holds_pages_len(plan.holds@, solved, diversions, plan.holds@.len());
}

/// Each route has two pages.
pub proof fn routes_pages_len(routes: Seq<Route>, detail: Detail, solved: Seq<Triangle>, count: nat)
    ensures
        routes_pages(routes, detail, solved, count).len() == 2 * count,
    decreases count,
{
    if count > 0 {
        routes_pages_len(routes, detail, solved, (count - 1) as nat);
    }
}

/// Each diversion has one page.
pub proof fn diversions_pages_len(
    diversions: Seq<Diversion>,
    solved: Seq<Triangle>,
    first: int,
    count: nat,
)
    ensures
        diversions_pages(diversions, solved, first, count).len() == count,
    decreases count,
{
    if count > 0 {
        diversions_pages_len(diversions, solved, first, (count - 1) as nat);
    }
}

/// Each hold has one page.
pub proof fn holds_pages_len(holds: Seq<Hold>, solved: Seq<Triangle>, first: int, count: nat)
    ensures
        holds_pages(holds, solved, first, count).len() == count,
    decreases count,
{
    if count > 0 {
        holds_pages_len(holds, solved, first, (count - 1) as nat);
    }
}

/// Whether the builder went from `before` to `after` by adding `pages`.
pub open spec fn added(
    before: PDFDocumentBuilder,
    after: PDFDocumentBuilder,
    pages: Seq<PageModel>,
) -> bool {
    &&& pages_view(after.pages()) == pages_view(before.pages()) + pages
    &&& after.objects() == before.objects()
    &&& after.resources() == before.resources()
}

/// Adding pages and then more pages adds all of them.
proof fn added_both(
    a: PDFDocumentBuilder,
    b: PDFDocumentBuilder,
    c: PDFDocumentBuilder,
    first: Seq<PageModel>,
    second: Seq<PageModel>,
)
    requires
        added(a, b, first),
        added(b, c, second),
    ensures
        added(a, c, first + second),
{
    assert(pages_view(c.pages()) =~= pages_view(a.pages()) + (first + second));
}

/// Adds the page of a log to the document.
fn add_plog(doc: &mut PDFDocumentBuilder, legs: &[Leg], notes: &[FontType], detail: &Detail)
    requires
        old(doc).resources() == 5,
    ensures
        added(
            *old(doc),
            *final(doc),
            seq![sheet(plog_ops(legs_view(legs@), notes@, *detail, point(A5)))],
        ),
{
    let page = doc.create_page(A5);
    create_plog(legs, notes, detail, page);
    proof {
        let ops = plog_ops(legs_view(legs@), notes@, *detail, point(A5));
        assert(page.layer@ =~= ops);
        assert(page@ == sheet(ops));
        assert(pages_view(doc.pages()) =~= pages_view(old(doc).pages()) + seq![sheet(ops)]);
    }
}

/// The legs of a route as they are logged, each with its solved triangle.
fn forward_legs(legs: &Vec<PlanLeg>, solved: &[Triangle]) -> (r: Vec<Leg>)
    requires
        legs@.len() <= solved@.len(),
    ensures
        legs_view(r@) == forward(legs@, solved@),
{
    let mut r: Vec<Leg> = Vec::new();
    let mut i: usize = 0;
    while i < legs.len()
        invariant
            i <= legs.len(),
            legs@.len() <= solved@.len(),
            r@.len() == i,
            forall|k: int| 0 <= k < i ==> (#[trigger] r@[k])@ == converted(legs@[k], solved@[k]),
        decreases legs.len() - i,
    {
        r.push(convert_leg(&legs[i], solved[i]));
        i += 1;
    }
    assert(legs_view(r@) =~= forward(legs@, solved@));
    r
}

/// The legs of a route flown the other way, the last leg first.
fn backward_legs(legs: Vec<Leg>, solved: &[Triangle], Ghost(plan_legs): Ghost<Seq<PlanLeg>>) -> (r:
    Vec<Leg>)
    requires
        solved@.len() == 2 * legs@.len(),
        legs_view(legs@) == forward(plan_legs, solved@),
        plan_legs.len() == legs@.len(),
    ensures
        legs_view(r@) == backward(plan_legs, solved@),
{
    let mut legs = legs;
    let n: usize = legs.len();
    let ghost all = legs@;
    let mut r: Vec<Leg> = Vec::new();
    let mut j: usize = 0;
    assert(solved.len() == 2 * n);
    while j < n
        invariant
            j <= n,
            n == all.len(),
            solved@.len() == 2 * n,
            2 * n <= usize::MAX,
            legs@ == all.take(n - j),
            r@.len() == j,
            forall|k: int|
                0 <= k < j ==> (#[trigger] r@[k])@ == reversed(all[n - 1 - k]@, solved@[n + k]),
        decreases n - j,
    {
        let leg = legs.pop();
        match leg {
            Some(leg) => {
                r.push(rev_leg(leg, solved[n + j]));
            },
            None => {},
        }
        assert(legs@ =~= all.take(n - j - 1));
        j += 1;
    }
    proof {
        assert forall|k: int| 0 <= k < n implies legs_view(r@)[k] == backward(
            plan_legs,
            solved@,
        )[k] by {
            assert(legs_view(all)[n - 1 - k] == all[n - 1 - k]@);
        }
        assert(legs_view(r@) =~= backward(plan_legs, solved@));
    }
    r
}

/// Adds the two pages of a route to the document.
fn add_route(doc: &mut PDFDocumentBuilder, route: &Route, detail: &Detail, solved: &[Triangle])
    requires
        old(doc).resources() == 5,
        solved@.len() == 2 * route.legs@.len(),
    ensures
        added(*old(doc), *final(doc), route_pages(*route, *detail, solved@)),
{
    let legs = forward_legs(&route.legs, solved);
    assert(legs@.len() == route.legs@.len()) by {
        assert(legs_view(legs@).len() == legs@.len());
        assert(forward(route.legs@, solved@).len() == route.legs@.len());
    }
    add_plog(doc, legs.as_slice(), route.notes.as_slice(), detail);
    let ghost logged = *doc;
    let reverse_legs = backward_legs(legs, solved, Ghost(route.legs@));
    add_plog(doc, reverse_legs.as_slice(), route.notes.as_slice(), detail);
    proof {
        added_both(
            *old(doc),
            logged,
            *doc,
            seq![sheet(plog_ops(forward(route.legs@, solved@), route.notes@, *detail, point(A5)))],
            seq![sheet(plog_ops(backward(route.legs@, solved@), route.notes@, *detail, point(A5)))],
        );
        assert(seq![
            sheet(plog_ops(forward(route.legs@, solved@), route.notes@, *detail, point(A5))),
        ] + seq![
            sheet(plog_ops(backward(route.legs@, solved@), route.notes@, *detail, point(A5))),
        ] =~= route_pages(*route, *detail, solved@));
    }
}

/// Adds the page of a diversion to the document.
fn add_diversion(doc: &mut PDFDocumentBuilder, diversion: &Diversion, solved: &[Triangle])
    requires
        old(doc).resources() == 5,
        solved@.len() == SHEET_TRIANGLES,
    ensures
        added(*old(doc), *final(doc), seq![diversion_page(*diversion, solved@)]),
{
    let speed = diversion.aircraft_speed;
    let wind = convert_velocity(&diversion.wind);
    let variation = Degree::new(from_int(diversion.variation));
    let page = doc.create_page(A5);
    create_wind_table(page, speed, variation, &wind, solved);
    proof {
        let ops = wind_table_ops(
            speed as int,
            normalize(diversion.variation * ONE),
            wind_of(diversion.wind),
            solved@,
            point(A5),
        );
        assert(page.layer@ =~= ops);
        assert(page@ == sheet(ops));
        assert(pages_view(doc.pages()) =~= pages_view(old(doc).pages()) + seq![sheet(ops)]);
    }
}

/// Adds the page of a hold to the document.
fn add_hold(doc: &mut PDFDocumentBuilder, hold: &Hold, solved: &[Triangle])
    requires
        old(doc).resources() == 5,
        solved@.len() == 3,
    ensures
        added(*old(doc), *final(doc), seq![hold_page(*hold, solved@)]),
{
    let triangles = HoldTriangles { inbound: solved[0], outbound: solved[1], gate: solved[2] };
    let page = doc.create_page(A5);
    create_hold(page, hold, &triangles);
    proof {
        let ops = hold_ops(*hold, hold_solved(solved@), point(A5));
        assert(page.layer@ =~= ops);
        assert(page@ == sheet(ops));
        assert(pages_view(doc.pages()) =~= pages_view(old(doc).pages()) + seq![sheet(ops)]);
    }
}

/// More routes need no fewer wind triangles.
pub proof fn routes_queries_grow(routes: Seq<Route>, fewer: nat, more: nat)
    requires
        fewer <= more,
    ensures
        routes_queries(routes, fewer).len() <= routes_queries(routes, more).len(),
    decreases more,
{
    if fewer < more {
        routes_queries_grow(routes, fewer, (more - 1) as nat);
    }
}

/// Each diversion needs 72 wind triangles.
pub proof fn diversions_queries_len(diversions: Seq<Diversion>, count: nat)
    ensures
        diversions_queries(diversions, count).len() == SHEET_TRIANGLES * count,
    decreases count,
{
    if count > 0 {
        diversions_queries_len(diversions, (count - 1) as nat);
    }
}

/// Each hold needs three wind triangles.
pub proof fn holds_queries_len(holds: Seq<Hold>, count: nat)
    ensures
        holds_queries(holds, count).len() == HOLD_TRIANGLES * count,
    decreases count,
{
    if count > 0 {
        holds_queries_len(holds, (count - 1) as nat);
    }
}

/// Adds the pages of all routes to the document, and gives the place of the
/// first solution that is not one of a route. Where the solutions do not
/// suffice, it gives none.
fn add_routes(
    doc: &mut PDFDocumentBuilder,
    routes: &Vec<Route>,
    detail: &Detail,
    solved: &[Triangle],
) -> (r: Option<usize>)
    requires
        old(doc).resources() == 5,
    ensures
        match r {
            Some(pos) => {
                &&& pos == routes_queries(routes@, routes@.len()).len()
                &&& pos <= solved@.len()
                &&& added(
                    *old(doc),
                    *final(doc),
                    routes_pages(routes@, *detail, solved@, routes@.len()),
                )
            },
            None => routes_queries(routes@, routes@.len()).len() > solved@.len(),
        },
{
    let mut pos: usize = 0;
    let mut r: usize = 0;
    assert(pages_view(doc.pages()) =~= pages_view(old(doc).pages()) + routes_pages(
        routes@,
        *detail,
        solved@,
        0,
    ));
    while r < routes.len()
        invariant
            r <= routes.len(),
            pos <= solved@.len(),
            pos == routes_queries(routes@, r as nat).len(),
            old(doc).resources() == 5,
            added(*old(doc), *doc, routes_pages(routes@, *detail, solved@, r as nat)),
        decreases routes.len() - r,
    {
        let route = &routes[r];
        let n: usize = route.legs.len();
        if n > (solved.len() - pos) / 2 {
            proof {
                routes_queries_grow(routes@, (r + 1) as nat, routes@.len());
            }
            return None;
        }
        let part = slice_subrange(solved, pos, pos + 2 * n);
        let ghost before = *doc;
        add_route(doc, route, detail, part);
        proof {
            added_both(
                *old(doc),
                before,
                *doc,
                routes_pages(routes@, *detail, solved@, r as nat),
                route_pages(*route, *detail, part@),
            );
        }
        pos = pos + 2 * n;
        r += 1;
    }
    Some(pos)
}

/// Adds the pages of all diversions to the document, for solutions that
/// start at the place `first`, and gives the place of the first solution
/// behind them. Where the solutions do not suffice, it gives none.
fn add_diversions(
    doc: &mut PDFDocumentBuilder,
    diversions: &Vec<Diversion>,
    solved: &[Triangle],
    first: usize,
) -> (r: Option<usize>)
    requires
        old(doc).resources() == 5,
        first <= solved@.len(),
    ensures
        match r {
            Some(pos) => {
                &&& pos == first + SHEET_TRIANGLES * diversions@.len()
                &&& pos <= solved@.len()
                &&& added(
                    *old(doc),
                    *final(doc),
                    diversions_pages(diversions@, solved@, first as int, diversions@.len()),
                )
            },
            None => first + SHEET_TRIANGLES * diversions@.len() > solved@.len(),
        },
{
    let mut pos: usize = first;
    let mut d: usize = 0;
    assert(pages_view(doc.pages()) =~= pages_view(old(doc).pages()) + diversions_pages(
        diversions@,
        solved@,
        first as int,
        0,
    ));
    while d < diversions.len()
        invariant
            d <= diversions.len(),
            pos <= solved@.len(),
            pos == first + 72 * d,
            old(doc).resources() == 5,
            added(
                *old(doc),
                *doc,
                diversions_pages(diversions@, solved@, first as int, d as nat),
            ),
        decreases diversions.len() - d,
    {
        if SHEET_TRIANGLES > solved.len() - pos {
            return None;
        }
        let part = slice_subrange(solved, pos, pos + SHEET_TRIANGLES);
        let ghost before = *doc;
        add_diversion(doc, &diversions[d], part);
        proof {
            added_both(
                *old(doc),
                before,
                *doc,
                diversions_pages(diversions@, solved@, first as int, d as nat),
                seq![diversion_page(diversions@[d as int], part@)],
            );
            assert(diversions_pages(diversions@, solved@, first as int, d as nat) + seq![
                diversion_page(diversions@[d as int], part@),
            ] =~= diversions_pages(diversions@, solved@, first as int, (d + 1) as nat));
        }
        pos = pos + SHEET_TRIANGLES;
        d += 1;
    }
    Some(pos)
}

/// Adds the pages of all holds to the document, for solutions that start at
/// the place `first`, and gives the place of the first solution behind
/// them. Where the solutions do not suffice, it gives none.
fn add_holds(doc: &mut PDFDocumentBuilder, holds: &Vec<Hold>, solved: &[Triangle], first: usize)
    -> (r: Option<usize>)
    requires
        old(doc).resources() == 5,
        first <= solved@.len(),
    ensures
        match r {
            Some(pos) => {
                &&& pos == first + HOLD_TRIANGLES * holds@.len()
                &&& pos <= solved@.len()
                &&& added(
                    *old(doc),
                    *final(doc),
                    holds_pages(holds@, solved@, first as int, holds@.len()),
                )
            },
            None => first + HOLD_TRIANGLES * holds@.len() > solved@.len(),
        },
{
    let mut pos: usize = first;
    let mut h: usize = 0;
    assert(pages_view(doc.pages()) =~= pages_view(old(doc).pages()) + holds_pages(
        holds@,
        solved@,
        first as int,
        0,
    ));
    while h < holds.len()
        invariant
            h <= holds.len(),
            pos <= solved@.len(),
            pos == first + 3 * h,
            old(doc).resources() == 5,
            added(*old(doc), *doc, holds_pages(holds@, solved@, first as int, h as nat)),
        decreases holds.len() - h,
    {
        if HOLD_TRIANGLES > solved.len() - pos {
            return None;
        }
        let part = slice_subrange(solved, pos, pos + HOLD_TRIANGLES);
        let ghost before = *doc;
        add_hold(doc, &holds[h], part);
        proof {
            added_both(
                *old(doc),
                before,
                *doc,
                holds_pages(holds@, solved@, first as int, h as nat),
                seq![hold_page(holds@[h as int], part@)],
            );
            assert(holds_pages(holds@, solved@, first as int, h as nat) + seq![
                hold_page(holds@[h as int], part@),
            ] =~= holds_pages(holds@, solved@, first as int, (h + 1) as nat));
        }
        pos = pos + HOLD_TRIANGLES;
        h += 1;
    }
    Some(pos)
}

/// Makes the document of a plan from the solutions of its wind triangles,
/// which stand in the order of `planning_queries`. There is a document
/// exactly when there is one solution for each of the plan's triangles.
pub fn create_planning(plan: &Plan, solved: &[Triangle]) -> (r: Option<PDFDocument>)
    ensures
        r.is_some() == (solved@.len() == plan_queries(*plan).len()),
        r matches Some(doc) ==> {
            &&& doc.content() == Seq::<Value>::empty()
            &&& doc.objects() == document_objects(base_objects(), plan_pages(*plan, solved@))
            &&& doc.root() == 7
        },
{
    proof {
        diversions_queries_len(plan.diversions@, plan.diversions@.len());
        holds_queries_len(plan.holds@, plan.holds@.len());
    }
    let mut doc_builder = PDFDocumentBuilder::new();
    let ghost fresh = doc_builder;
    assert(pages_view(fresh.pages()) =~= Seq::<PageModel>::empty());
    let routed = match add_routes(&mut doc_builder, &plan.routes, &plan.detail, solved) {
        Some(pos) => pos,
        None => {
            return None;
        },
    };
    let ghost s1 = doc_builder;
    let diverted = match add_diversions(&mut doc_builder, &plan.diversions, solved, routed) {
        Some(pos) => pos,
        None => {
            return None;
        },
    };
    let ghost s2 = doc_builder;
    let held = match add_holds(&mut doc_builder, &plan.holds, solved, diverted) {
        Some(pos) => pos,
        None => {
            return None;
        },
    };
    if held != solved.len() {
        return None;
    }
    proof {
        let part1 = routes_pages(plan.routes@, plan.detail, solved@, plan.routes@.len());
        let part2 = diversions_pages(
            plan.diversions@,
            solved@,
            routed as int,
            plan.diversions@.len(),
        );
        let part3 = holds_pages(plan.holds@, solved@, diverted as int, plan.holds@.len());
        added_both(fresh, s1, s2, part1, part2);
        added_both(fresh, s2, doc_builder, part1 + part2, part3);
        assert(pages_view(doc_builder.pages()) =~= plan_pages(*plan, solved@));
    }
    Some(doc_builder.to_doc())
}

} // verus!
