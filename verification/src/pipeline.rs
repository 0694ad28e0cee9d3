//! From parsed commands to a drawing: the canvas settings, the objects in
//! drawing order with their arrows resolved, the canvas size, and the
//! rendered, listed or checked diagram.
use vstd::prelude::*;

use crate::cli::CollisionMode;
use crate::dsl::command::{CanvasSize, CommandView, DslCommand};
use crate::error::{ErrorView, UnidError};
use crate::object::rect::{BorderStyle, ContentAlign, ContentOverflow, Side};
use crate::dsl::values::{perr, push_quoted, quoted, same_chars};
use crate::object::arrow::{
    compute_route, compute_self_loop, law_route_shape, law_self_loop_shape, route_spec,
    self_loop_spec, within,
};
use crate::object::{
    anchor_spec, copy_opt_legend, copy_opt_string, fits, Rect, lemma_anchor_limit, legend_fits,
    opt_legend_view, ArrowView, DrawObject, DrawObjectView, Legend, LegendView, ResolvedArrow,
    COORD_LIMIT,
};
use crate::canvas::grid::{apply_steps, blank, render_spec, Canvas, CanvasView};
use crate::error::message_spec;
use crate::object::{
    border_style_name, bounds_spec, collision_desc_spec, lemma_bounds_limit, position_spec,
    summary_spec,
};
use crate::renderer::engine::draw_steps;
use crate::renderer::shapes::tip_spec;
use crate::object::arrow::{family_head, resolve_head_spec, Dir};
use crate::textops::{decimal, push_decimal};
use crate::renderer::engine::{
    all_fit, border_steps, enrich_spec, objects_view, pass_result, Renderer,
};
use crate::textops::{chars_of, push_all, push_str, string_from_chars};

verus! {

/// An arrow named in a description, not yet attached to its objects.
pub struct ArrowRef {
    pub src_id: Seq<char>,
    pub src_side: Side,
    pub dst_id: Seq<char>,
    pub dst_side: Side,
    pub head: Option<char>,
    pub both: bool,
    pub legend: Option<LegendView>,
    pub line: usize,
}

/// A place in the drawing order: an object, or an arrow to resolve.
pub enum SlotView {
    Ready(DrawObjectView),
    Pending(ArrowRef),
}

/// The canvas settings gathered from the commands.
pub struct Header {
    pub width: Option<CanvasSize>,
    pub height: Option<CanvasSize>,
    pub border: Option<BorderStyle>,
    pub overflow: ContentOverflow,
    pub align: ContentAlign,
    pub collision: Option<bool>,
    pub head: Option<char>,
}

/// The settings before any command.
pub open spec fn initial_header() -> Header {
    Header {
        width: None,
        height: None,
        border: None,
        overflow: ContentOverflow::Ellipsis,
        align: ContentAlign::Left,
        collision: None,
        head: None,
    }
}

/// The settings after one more command: the last `canvas` sets the size and
/// border, each canvas overflow or alignment given replaces the earlier one,
/// the last `collision` and `arrowhead` count.
pub open spec fn header_step(h: Header, c: CommandView) -> Header {
    match c {
        CommandView::Canvas { width, height, border, content_overflow, content_align } => Header {
            width: Some(width),
            height: Some(height),
            border,
            overflow: match content_overflow {
                Some(o) => o,
                None => h.overflow,
            },
            align: match content_align {
                Some(a) => a,
                None => h.align,
            },
            ..h
        },
        CommandView::Collision(b) => Header { collision: Some(b), ..h },
        CommandView::Arrowhead(ch) => Header { head: Some(ch), ..h },
        _ => h,
    }
}

/// The settings the commands give.
pub open spec fn header_spec(cmds: Seq<CommandView>) -> Header
    decreases cmds.len(),
{
    if cmds.len() == 0 {
        initial_header()
    } else {
        header_step(header_spec(cmds.drop_last()), cmds.last())
    }
}

/// The objects and arrows of the commands, in the order they appear.
pub open spec fn slots_spec(cmds: Seq<CommandView>) -> Seq<SlotView>
    decreases cmds.len(),
{
    if cmds.len() == 0 {
        Seq::empty()
    } else {
        let s = slots_spec(cmds.drop_last());
        match cmds.last() {
            CommandView::Object(o) => s.push(SlotView::Ready(o)),
            CommandView::Arrow { src_id, src_side, dst_id, dst_side, head, both, legend, line } => s.push(
                SlotView::Pending(ArrowRef { src_id, src_side, dst_id, dst_side, head, both, legend, line }),
            ),
            _ => s,
        }
    }
}

/// An arrow named in a description, not yet attached to its objects.
pub struct PendingArrow {
    pub src_id: String,
    pub src_side: Side,
    pub dst_id: String,
    pub dst_side: Side,
    pub head: Option<char>,
    pub both: bool,
    pub legend: Option<Legend>,
    pub line: usize,
}

/// A place in the drawing order: an object, or an arrow to resolve.
pub enum DrawSlot {
    Ready(DrawObject),
    Pending(PendingArrow),
}

impl View for PendingArrow {
    type V = ArrowRef;

    open spec fn view(&self) -> ArrowRef {
        ArrowRef {
            src_id: self.src_id@,
            src_side: self.src_side,
            dst_id: self.dst_id@,
            dst_side: self.dst_side,
            head: self.head,
            both: self.both,
            legend: opt_legend_view(self.legend),
            line: self.line,
        }
    }
}

impl View for DrawSlot {
    type V = SlotView;

    open spec fn view(&self) -> SlotView {
        match self {
            DrawSlot::Ready(o) => SlotView::Ready(o@),
            DrawSlot::Pending(a) => SlotView::Pending(a@),
        }
    }
}

/// The values of the slots.
pub open spec fn slots_view(v: Seq<DrawSlot>) -> Seq<SlotView> {
    v.map_values(|s: DrawSlot| s@)
}

/// The settings and the slots of the commands.
fn collect(commands: &Vec<DslCommand>) -> (r: (Header, Vec<DrawSlot>))
    ensures
        r.0 == header_spec(crate::dsl::command::commands_view(commands@)),
        slots_view(r.1@) == slots_spec(crate::dsl::command::commands_view(commands@)),
{
    let ghost cv = crate::dsl::command::commands_view(commands@);
    let mut width: Option<CanvasSize> = None;
    let mut height: Option<CanvasSize> = None;
    let mut border: Option<BorderStyle> = None;
    let mut overflow = ContentOverflow::Ellipsis;
    let mut align = ContentAlign::Left;
    let mut collision: Option<bool> = None;
    let mut head: Option<char> = None;
    let mut slots: Vec<DrawSlot> = Vec::new();
    let mut i: usize = 0;
    assert(cv.take(0) == Seq::<CommandView>::empty());
    assert(slots_view(slots@) =~= Seq::<SlotView>::empty());
    while i < commands.len()
        invariant
            i <= commands@.len(),
            cv == crate::dsl::command::commands_view(commands@),
            header_spec(cv.take(i as int)) == (Header { width, height, border, overflow, align, collision, head }),
            slots_view(slots@) == slots_spec(cv.take(i as int)),
        decreases commands.len() - i,
    {
        let ghost before = slots_view(slots@);
        assert(cv.take(i + 1).drop_last() == cv.take(i as int));
        assert(cv.take(i + 1).last() == commands@[i as int]@);
        match &commands[i] {
            DslCommand::Canvas { width: w, height: h, border: b, content_overflow, content_align } => {
                width = Some(*w);
                height = Some(*h);
                border = *b;
                if let Some(o) = content_overflow {
                    overflow = *o;
                }
                if let Some(a) = content_align {
                    align = *a;
                }
            },
            DslCommand::Collision(v) => {
                collision = Some(*v);
            },
            DslCommand::Object(o) => {
                slots.push(DrawSlot::Ready(o.duplicate()));
                assert(slots_view(slots@) =~= before.push(SlotView::Ready(o@)));
            },
            DslCommand::Arrow { src_id, src_side, dst_id, dst_side, head: ah, both, legend, line } => {
                let p = PendingArrow {
                    src_id: src_id.clone(),
                    src_side: *src_side,
                    dst_id: dst_id.clone(),
                    dst_side: *dst_side,
                    head: *ah,
                    both: *both,
                    legend: copy_opt_legend(legend),
                    line: *line,
                };
                slots.push(DrawSlot::Pending(p));
                assert(slots_view(slots@) =~= before.push(slots@.last()@));
            },
            DslCommand::Arrowhead(c) => {
                head = Some(*c);
            },
        }
        i = i + 1;
    }
    assert(cv.take(commands@.len() as int) == cv);
    (Header { width, height, border, overflow, align, collision, head }, slots)
}

/// The id of an object that has one; arrows have none.
pub open spec fn object_id(o: DrawObjectView) -> Option<Seq<char>> {
    match o {
        DrawObjectView::Rect(r) => r.id,
        DrawObjectView::Text(t) => t.id,
        DrawObjectView::HLine(h) => h.id,
        DrawObjectView::VLine(v) => v.id,
        DrawObjectView::Arrow(_) => None,
    }
}

/// The id of a slot's object.
pub open spec fn slot_id(s: SlotView) -> Option<Seq<char>> {
    match s {
        SlotView::Ready(o) => object_id(o),
        SlotView::Pending(_) => None,
    }
}

/// The error for the first slot, among the first `k`, whose id an earlier
/// slot already has.
pub open spec fn duplicate_error(slots: Seq<SlotView>, k: nat) -> Option<ErrorView>
    decreases k,
{
    if k == 0 {
        None
    } else {
        match duplicate_error(slots, (k - 1) as nat) {
            Some(e) => Some(e),
            None => match slot_id(slots[k - 1]) {
                Some(id) => if exists|i: int| 0 <= i < k - 1 && #[trigger] slot_id(slots[i]) == Some(id) {
                    Some(perr(0, "duplicate object id "@ + quoted(id)))
                } else {
                    None
                },
                None => None,
            },
        }
    }
}

/// The first slot at or after `i` whose object has the id `id`.
pub open spec fn find_id(slots: Seq<SlotView>, id: Seq<char>, i: nat) -> Option<nat>
    decreases slots.len() - i,
{
    if i >= slots.len() {
        None
    } else if slot_id(slots[i as int]) == Some(id) {
        Some(i)
    } else {
        find_id(slots, id, i + 1)
    }
}

/// The object of a slot (an empty arrow for an arrow still to resolve).
pub open spec fn slot_object(s: SlotView) -> DrawObjectView {
    match s {
        SlotView::Ready(o) => o,
        SlotView::Pending(_) => DrawObjectView::Arrow(
            ArrowView { waypoints: Seq::empty(), head: None, both: false, legend: None },
        ),
    }
}

/// The arrow a reference resolves to: from the attachment point of its source
/// object to that of its destination, routed around the object when both are
/// the same; its head the one it names, else the description-wide one.
pub open spec fn resolve_spec(slots: Seq<SlotView>, a: ArrowRef, global: Option<char>) -> Result<DrawObjectView, ErrorView> {
    match find_id(slots, a.src_id, 0) {
        None => Err(perr(a.line, "unknown object id "@ + quoted(a.src_id) + " in arrow source"@)),
        Some(si) => match find_id(slots, a.dst_id, 0) {
            None => Err(perr(a.line, "unknown object id "@ + quoted(a.dst_id) + " in arrow destination"@)),
            Some(di) => {
                let s = anchor_spec(slot_object(slots[si as int]), a.src_side).unwrap();
                let e = anchor_spec(slot_object(slots[di as int]), a.dst_side).unwrap();
                let wp = if a.src_id == a.dst_id {
                    self_loop_spec(s.0, s.1, a.src_side, e.0, e.1, a.dst_side)
                } else {
                    route_spec(s.0, s.1, a.src_side, e.0, e.1, a.dst_side)
                };
                Ok(
                    DrawObjectView::Arrow(
                        ArrowView {
                            waypoints: wp,
                            head: match a.head {
                                Some(c) => Some(c),
                                None => global,
                            },
                            both: a.both,
                            legend: a.legend,
                        },
                    ),
                )
            },
        },
    }
}

/// The objects of the first `k` slots with their arrows resolved; the error
/// of the first arrow that cannot be.
pub open spec fn resolve_slots(slots: Seq<SlotView>, global: Option<char>, k: nat) -> Result<Seq<DrawObjectView>, ErrorView>
    decreases k,
{
    if k == 0 {
        Ok(Seq::empty())
    } else {
        match resolve_slots(slots, global, (k - 1) as nat) {
            Err(e) => Err(e),
            Ok(os) => match slots[k - 1] {
                SlotView::Ready(o) => Ok(os.push(o)),
                SlotView::Pending(a) => match resolve_spec(slots, a, global) {
                    Ok(o) => Ok(os.push(o)),
                    Err(e) => Err(e),
                },
            },
        }
    }
}

/// A slot within the layout limits.
pub open spec fn slot_fits(s: SlotView) -> bool {
    match s {
        SlotView::Ready(o) => fits(o),
        SlotView::Pending(a) => legend_fits(a.legend),
    }
}

/// A command whose object or legend is within the layout limits.
pub open spec fn command_fits(c: CommandView) -> bool {
    match c {
        CommandView::Object(o) => fits(o),
        CommandView::Arrow { legend, .. } => legend_fits(legend),
        _ => true,
    }
}

/// The canvas size, options and objects of a description.
pub struct CanvasConfig {
    pub width: CanvasSize,
    pub height: CanvasSize,
    pub border: Option<BorderStyle>,
    pub global_overflow: ContentOverflow,
    pub global_align: ContentAlign,
    pub collision: bool,
    pub objects: Vec<DrawObject>,
}

/// The value of a [`CanvasConfig`].
pub struct ConfigView {
    pub width: CanvasSize,
    pub height: CanvasSize,
    pub border: Option<BorderStyle>,
    pub global_overflow: ContentOverflow,
    pub global_align: ContentAlign,
    pub collision: bool,
    pub objects: Seq<DrawObjectView>,
}

impl View for CanvasConfig {
    type V = ConfigView;

    open spec fn view(&self) -> ConfigView {
        ConfigView {
            width: self.width,
            height: self.height,
            border: self.border,
            global_overflow: self.global_overflow,
            global_align: self.global_align,
            collision: self.collision,
            objects: crate::renderer::engine::objects_view(self.objects@),
        }
    }
}

/// The collision mode in force: the command line's, else the description's.
pub open spec fn collision_mode(over: Option<CollisionMode>, declared: bool) -> bool {
    match over {
        Some(CollisionMode::On) => true,
        Some(CollisionMode::Off) => false,
        None => declared,
    }
}

/// The configuration the commands describe: the canvas and collision must be
/// declared, ids must be unique, and every arrow's ids must name objects.
pub open spec fn process_spec(cmds: Seq<CommandView>, over: Option<CollisionMode>) -> Result<ConfigView, ErrorView> {
    let h = header_spec(cmds);
    let slots = slots_spec(cmds);
    if h.width is None || h.height is None {
        Err(ErrorView::NoCanvas)
    } else if h.collision is None {
        Err(ErrorView::NoCollision)
    } else {
        match duplicate_error(slots, slots.len()) {
            Some(e) => Err(e),
            None => match resolve_slots(slots, h.head, slots.len()) {
                Err(e) => Err(e),
                Ok(objs) => Ok(
                    ConfigView {
                        width: h.width.unwrap(),
                        height: h.height.unwrap(),
                        border: h.border,
                        global_overflow: h.overflow,
                        global_align: h.align,
                        collision: collision_mode(over, h.collision.unwrap()),
                        objects: objs,
                    },
                ),
            },
        }
    }
}

/// The characters of an object's id.
fn object_id_chars(o: &DrawObject) -> (r: Option<Vec<char>>)
    ensures
        match r {
            Some(v) => object_id(o@) == Some(v@),
            None => object_id(o@) is None,
        },
{
    let id = match o {
        DrawObject::Rect(r) => &r.id,
        DrawObject::Text(t) => &t.id,
        DrawObject::HLine(h) => &h.id,
        DrawObject::VLine(v) => &v.id,
        DrawObject::Arrow(_) => return None,
    };
    match id {
        Some(s) => Some(chars_of(s.as_str())),
        None => None,
    }
}

/// The characters of a slot's id.
fn slot_id_chars(s: &DrawSlot) -> (r: Option<Vec<char>>)
    ensures
        match r {
            Some(v) => slot_id(s@) == Some(v@),
            None => slot_id(s@) is None,
        },
{
    match s {
        DrawSlot::Ready(o) => object_id_chars(o),
        DrawSlot::Pending(_) => None,
    }
}

/// Refuses a description in which two objects share an id.
fn check_duplicates(slots: &Vec<DrawSlot>) -> (r: Result<(), UnidError>)
    ensures
        match r {
            Ok(()) => duplicate_error(slots_view(slots@), slots@.len()) is None,
            Err(e) => duplicate_error(slots_view(slots@), slots@.len()) == Some(e@),
        },
{
    let ghost sv = slots_view(slots@);
    let mut j: usize = 0;
    while j < slots.len()
        invariant
            j <= slots@.len(),
            sv == slots_view(slots@),
            duplicate_error(sv, j as nat) is None,
        decreases slots.len() - j,
    {
        assert(sv[j as int] == slots@[j as int]@);
        match slot_id_chars(&slots[j]) {
            Some(id) => {
                let mut i: usize = 0;
                while i < j
                    invariant
                        i <= j < slots@.len(),
                        sv == slots_view(slots@),
                        slot_id(sv[j as int]) == Some(id@),
                        duplicate_error(sv, j as nat) is None,
                        forall|k: int| 0 <= k < i ==> #[trigger] slot_id(sv[k]) != Some(id@),
                    decreases j - i,
                {
                    assert(sv[i as int] == slots@[i as int]@);
                    match slot_id_chars(&slots[i]) {
                        Some(other) => {
                            if same_chars(other.as_slice(), id.as_slice()) {
                                assert(slot_id(sv[i as int]) == Some(id@));
                                let mut m: Vec<char> = Vec::new();
                                push_str(&mut m, "duplicate object id ");
                                push_quoted(&mut m, id.as_slice());
                                assert(m@ =~= "duplicate object id "@ + quoted(id@));
                                assert(duplicate_error(sv, (j + 1) as nat) == Some(perr(0, m@)));
                                proof {
                                    lemma_duplicate_error_stays(sv, (j + 1) as nat, sv.len());
                                }
                                return Err(UnidError::Parse { line: 0, message: string_from_chars(m.as_slice()) });
                            }
                        },
                        None => {},
                    }
                    i = i + 1;
                }
            },
            None => {},
        }
        j = j + 1;
    }
    Ok(())
}

/// Once a duplicate has been found, later slots change nothing.
proof fn lemma_duplicate_error_stays(slots: Seq<SlotView>, k: nat, n: nat)
    requires
        k <= n,
        duplicate_error(slots, k) is Some,
    ensures
        duplicate_error(slots, n) == duplicate_error(slots, k),
    decreases n - k,
{
    if k < n {
        lemma_duplicate_error_stays(slots, k, (n - 1) as nat);
    }
}

/// The first slot whose object has the id `id`.
fn find_slot(slots: &Vec<DrawSlot>, id: &[char]) -> (r: Option<usize>)
    ensures
        match r {
            Some(i) => find_id(slots_view(slots@), id@, 0) == Some(i as nat),
            None => find_id(slots_view(slots@), id@, 0) is None,
        },
{
    let ghost sv = slots_view(slots@);
    let mut i: usize = 0;
    while i < slots.len()
        invariant
            i <= slots@.len(),
            sv == slots_view(slots@),
            find_id(sv, id@, 0) == find_id(sv, id@, i as nat),
        decreases slots.len() - i,
    {
        assert(sv[i as int] == slots@[i as int]@);
        match slot_id_chars(&slots[i]) {
            Some(other) => {
                if same_chars(other.as_slice(), id) {
                    return Some(i);
                }
            },
            None => {},
        }
        i = i + 1;
    }
    None
}

/// Where an arrow leaving (or entering) an object on `side` attaches.
fn attach_point(o: &DrawObject, side: Side, leaving: bool) -> (p: (usize, usize))
    requires
        fits(o@),
        object_id(o@) is Some,
    ensures
        anchor_spec(o@, side) == Some(p),
{
    match o {
        DrawObject::Rect(r) => if leaving { r.src_anchor(side) } else { r.dst_anchor(side) },
        DrawObject::Text(t) => if leaving { t.src_anchor(side) } else { t.dst_anchor(side) },
        DrawObject::HLine(h) => if leaving { h.src_anchor(side) } else { h.dst_anchor(side) },
        DrawObject::VLine(v) => if leaving { v.src_anchor(side) } else { v.dst_anchor(side) },
        DrawObject::Arrow(_) => (0, 0),
    }
}

/// The slot found by id holds an object with that id.
proof fn lemma_find_id(slots: Seq<SlotView>, id: Seq<char>, i: nat)
    ensures
        find_id(slots, id, i) matches Some(k) ==> i <= k < slots.len() && slot_id(slots[k as int]) == Some(id),
    decreases slots.len() - i,
{
    if i < slots.len() && slot_id(slots[i as int]) != Some(id) {
        lemma_find_id(slots, id, i + 1);
    }
}

/// Resolves one arrow against the slots.
fn resolve_arrow(slots: &Vec<DrawSlot>, a: &PendingArrow, global: Option<char>) -> (r: Result<DrawObject, UnidError>)
    requires
        forall|i: int| 0 <= i < slots@.len() ==> slot_fits(#[trigger] slots@[i]@),
        legend_fits(a@.legend),
    ensures
        match r {
            Ok(o) => resolve_spec(slots_view(slots@), a@, global) == Ok::<DrawObjectView, ErrorView>(o@) && fits(o@),
            Err(e) => resolve_spec(slots_view(slots@), a@, global) == Err::<DrawObjectView, ErrorView>(e@),
        },
{
    let ghost sv = slots_view(slots@);
    let src_chars = chars_of(a.src_id.as_str());
    let dst_chars = chars_of(a.dst_id.as_str());
    let si = match find_slot(slots, src_chars.as_slice()) {
        Some(i) => i,
        None => {
            let mut m: Vec<char> = Vec::new();
            push_str(&mut m, "unknown object id ");
            push_quoted(&mut m, src_chars.as_slice());
            push_str(&mut m, " in arrow source");
            assert(m@ =~= "unknown object id "@ + quoted(a@.src_id) + " in arrow source"@);
            return Err(UnidError::Parse { line: a.line, message: string_from_chars(m.as_slice()) });
        },
    };
    let di = match find_slot(slots, dst_chars.as_slice()) {
        Some(i) => i,
        None => {
            let mut m: Vec<char> = Vec::new();
            push_str(&mut m, "unknown object id ");
            push_quoted(&mut m, dst_chars.as_slice());
            push_str(&mut m, " in arrow destination");
            assert(m@ =~= "unknown object id "@ + quoted(a@.dst_id) + " in arrow destination"@);
            return Err(UnidError::Parse { line: a.line, message: string_from_chars(m.as_slice()) });
        },
    };
    proof {
        lemma_find_id(sv, a@.src_id, 0);
        lemma_find_id(sv, a@.dst_id, 0);
    }
    assert(sv[si as int] == slots@[si as int]@);
    assert(sv[di as int] == slots@[di as int]@);
    assert(slot_fits(slots@[si as int]@));
    assert(slot_fits(slots@[di as int]@));
    let (sx, sy) = match &slots[si] {
        DrawSlot::Ready(o) => attach_point(o, a.src_side, true),
        DrawSlot::Pending(_) => (0, 0),
    };
    let (ex, ey) = match &slots[di] {
        DrawSlot::Ready(o) => attach_point(o, a.dst_side, false),
        DrawSlot::Pending(_) => (0, 0),
    };
    proof {
        lemma_anchor_limit(slot_object(sv[si as int]), a.src_side);
        lemma_anchor_limit(slot_object(sv[di as int]), a.dst_side);
    }
    let same = same_chars(src_chars.as_slice(), dst_chars.as_slice());
    let waypoints = if same {
        proof {
            law_self_loop_shape(sx, sy, a.src_side, ex, ey, a.dst_side);
        }
        compute_self_loop(sx, sy, a.src_side, ex, ey, a.dst_side)
    } else {
        proof {
            law_route_shape(sx, sy, a.src_side, ex, ey, a.dst_side);
        }
        compute_route(sx, sy, a.src_side, ex, ey, a.dst_side)
    };
    let head = match a.head {
        Some(c) => Some(c),
        None => global,
    };
    let arrow = ResolvedArrow { waypoints, head, both: a.both, legend: copy_opt_legend(&a.legend) };
    let o = DrawObject::Arrow(arrow);
    Ok(o)
}

/// Once an arrow has failed to resolve, later slots change nothing.
proof fn lemma_resolve_slots_err(slots: Seq<SlotView>, global: Option<char>, k: nat, n: nat)
    requires
        k <= n,
        resolve_slots(slots, global, k) is Err,
    ensures
        resolve_slots(slots, global, n) == resolve_slots(slots, global, k),
    decreases n - k,
{
    if k < n {
        lemma_resolve_slots_err(slots, global, k, (n - 1) as nat);
    }
}

/// The objects in drawing order with every arrow resolved.
fn resolve_all(slots: &Vec<DrawSlot>, global: Option<char>) -> (r: Result<Vec<DrawObject>, UnidError>)
    requires
        forall|i: int| 0 <= i < slots@.len() ==> slot_fits(#[trigger] slots@[i]@),
    ensures
        match r {
            Ok(v) => resolve_slots(slots_view(slots@), global, slots@.len()) == Ok::<
                Seq<DrawObjectView>,
                ErrorView,
            >(crate::renderer::engine::objects_view(v@)) && crate::renderer::engine::all_fit(
                crate::renderer::engine::objects_view(v@),
            ),
            Err(e) => resolve_slots(slots_view(slots@), global, slots@.len()) == Err::<
                Seq<DrawObjectView>,
                ErrorView,
            >(e@),
        },
{
    let ghost sv = slots_view(slots@);
    let mut objects: Vec<DrawObject> = Vec::new();
    let mut i: usize = 0;
    assert(crate::renderer::engine::objects_view(objects@) =~= Seq::<DrawObjectView>::empty());
    while i < slots.len()
        invariant
            i <= slots@.len(),
            sv == slots_view(slots@),
            forall|k: int| 0 <= k < slots@.len() ==> slot_fits(#[trigger] slots@[k]@),
            resolve_slots(sv, global, i as nat) == Ok::<Seq<DrawObjectView>, ErrorView>(
                crate::renderer::engine::objects_view(objects@),
            ),
            crate::renderer::engine::all_fit(crate::renderer::engine::objects_view(objects@)),
        decreases slots.len() - i,
    {
        let ghost before = crate::renderer::engine::objects_view(objects@);
        assert(sv[i as int] == slots@[i as int]@);
        assert(slot_fits(slots@[i as int]@));
        let o = match &slots[i] {
            DrawSlot::Ready(o) => o.duplicate(),
            DrawSlot::Pending(a) => match resolve_arrow(slots, a, global) {
                Ok(o) => o,
                Err(e) => {
                    proof {
                        lemma_resolve_slots_err(sv, global, (i + 1) as nat, sv.len());
                    }
                    return Err(e);
                },
            },
        };
        objects.push(o);
        assert(crate::renderer::engine::objects_view(objects@) =~= before.push(o@));
        i = i + 1;
    }
    Ok(objects)
}

/// Every slot of commands within the layout limits is within them.
proof fn lemma_slots_fit(cmds: Seq<CommandView>)
    requires
        forall|i: int| 0 <= i < cmds.len() ==> command_fits(#[trigger] cmds[i]),
    ensures
        forall|i: int| 0 <= i < slots_spec(cmds).len() ==> slot_fits(#[trigger] slots_spec(cmds)[i]),
    decreases cmds.len(),
{
    if cmds.len() > 0 {
        let c = cmds.drop_last();
        assert forall|i: int| 0 <= i < c.len() implies command_fits(#[trigger] c[i]) by {
            assert(c[i] == cmds[i]);
        }
        lemma_slots_fit(c);
        assert(command_fits(cmds[cmds.len() - 1]));
        let prev = slots_spec(c);
        let cur = slots_spec(cmds);
        assert forall|i: int| 0 <= i < cur.len() implies slot_fits(#[trigger] cur[i]) by {
            if i < prev.len() {
                assert(cur[i] == prev[i]);
            }
        }
    }
}

/// Whether every command is within the layout limits that resolving and
/// drawing assume.
pub fn commands_fit(commands: &Vec<DslCommand>) -> (b: bool)
    ensures
        b == forall|i: int| 0 <= i < commands@.len() ==> command_fits(#[trigger] commands@[i]@),
{
    let mut i: usize = 0;
    while i < commands.len()
        invariant
            i <= commands@.len(),
            forall|k: int| 0 <= k < i ==> command_fits(#[trigger] commands@[k]@),
        decreases commands.len() - i,
    {
        let ok = match &commands[i] {
            DslCommand::Object(o) => o.within_limits(),
            DslCommand::Arrow { legend, .. } => match legend {
                Some(l) => chars_of(l.text.as_str()).len() <= COORD_LIMIT,
                None => true,
            },
            _ => true,
        };
        if !ok {
            assert(!command_fits(commands@[i as int]@));
            return false;
        }
        i = i + 1;
    }
    true
}

/// Collects the canvas settings and objects from the commands, resolving
/// each arrow's ids to the objects they name.
pub fn process_commands(commands: &Vec<DslCommand>, collision_override: Option<CollisionMode>) -> (r: Result<CanvasConfig, UnidError>)
    requires
        forall|i: int| 0 <= i < commands@.len() ==> command_fits(#[trigger] commands@[i]@),
    ensures
        match r {
            Ok(c) => process_spec(crate::dsl::command::commands_view(commands@), collision_override)
                == Ok::<ConfigView, ErrorView>(c@) && crate::renderer::engine::all_fit(c@.objects),
            Err(e) => process_spec(crate::dsl::command::commands_view(commands@), collision_override)
                == Err::<ConfigView, ErrorView>(e@),
        },
{
    let ghost cv = crate::dsl::command::commands_view(commands@);
    proof {
        assert forall|i: int| 0 <= i < cv.len() implies command_fits(#[trigger] cv[i]) by {
            assert(cv[i] == commands@[i]@);
        }
        lemma_slots_fit(cv);
    }
    let (h, slots) = collect(commands);
    assert forall|i: int| 0 <= i < slots@.len() implies slot_fits(#[trigger] slots@[i]@) by {
        assert(slots_view(slots@)[i] == slots@[i]@);
    }
    let width = match h.width {
        Some(w) => w,
        None => return Err(UnidError::NoCanvas),
    };
    let height = match h.height {
        Some(x) => x,
        None => return Err(UnidError::NoCanvas),
    };
    let declared = match h.collision {
        Some(c) => c,
        None => return Err(UnidError::NoCollision),
    };
    let collision = match collision_override {
        Some(CollisionMode::On) => true,
        Some(CollisionMode::Off) => false,
        None => declared,
    };
    match check_duplicates(&slots) {
        Ok(()) => {},
        Err(e) => return Err(e),
    }
    let objects = match resolve_all(&slots, h.head) {
        Ok(v) => v,
        Err(e) => return Err(e),
    };
    Ok(
        CanvasConfig {
            width,
            height,
            border: h.border,
            global_overflow: h.overflow,
            global_align: h.align,
            collision,
            objects,
        },
    )
}

/// The larger of two integers.
pub open spec fn max_int(a: int, b: int) -> int {
    if a >= b { a } else { b }
}

/// The columns and rows the objects need: the largest bounds, at least 1.
pub open spec fn extent_spec(objs: Seq<DrawObjectView>) -> (int, int)
    decreases objs.len(),
{
    if objs.len() == 0 {
        (1, 1)
    } else {
        let e = extent_spec(objs.drop_last());
        let b = bounds_spec(objs.last());
        (max_int(e.0, b.0), max_int(e.1, b.1))
    }
}

/// The canvas size: the fixed dimensions as given, automatic ones from the
/// objects' extent; with a border, at least 3 by 3.
pub open spec fn canvas_size_spec(
    width: CanvasSize,
    height: CanvasSize,
    objs: Seq<DrawObjectView>,
    border: Option<BorderStyle>,
) -> (int, int) {
    let e = extent_spec(objs);
    let w = match width {
        CanvasSize::Fixed(w) => w as int,
        CanvasSize::Auto => e.0,
    };
    let h = match height {
        CanvasSize::Fixed(h) => h as int,
        CanvasSize::Auto => e.1,
    };
    if border is Some {
        (max_int(w, 3), max_int(h, 3))
    } else {
        (w, h)
    }
}

proof fn lemma_extent_limit(objs: Seq<DrawObjectView>)
    requires
        all_fit(objs),
    ensures
        1 <= extent_spec(objs).0 <= 4 * COORD_LIMIT + 1,
        1 <= extent_spec(objs).1 <= 4 * COORD_LIMIT + 1,
    decreases objs.len(),
{
    if objs.len() > 0 {
        let d = objs.drop_last();
        assert forall|i: int| 0 <= i < d.len() implies fits(#[trigger] d[i]) by {
            assert(d[i] == objs[i]);
        }
        lemma_extent_limit(d);
        assert(fits(objs[objs.len() - 1]));
        lemma_bounds_limit(objs.last());
    }
}

/// The size of the canvas for the objects.
pub fn compute_canvas_size(
    width: CanvasSize,
    height: CanvasSize,
    objects: &Vec<DrawObject>,
    border: Option<BorderStyle>,
) -> (r: (usize, usize))
    requires
        all_fit(objects_view(objects@)),
    ensures
        r.0 == canvas_size_spec(width, height, objects_view(objects@), border).0,
        r.1 == canvas_size_spec(width, height, objects_view(objects@), border).1,
{
    let ghost ov = objects_view(objects@);
    let (mut w, mut h) = match (width, height) {
        (CanvasSize::Fixed(w), CanvasSize::Fixed(h)) => (w, h),
        _ => {
            let mut max_w: usize = 1;
            let mut max_h: usize = 1;
            let mut i: usize = 0;
            assert(ov.take(0) == Seq::<DrawObjectView>::empty());
            while i < objects.len()
                invariant
                    i <= objects@.len(),
                    ov == objects_view(objects@),
                    all_fit(ov),
                    (max_w as int, max_h as int) == extent_spec(ov.take(i as int)),
                decreases objects.len() - i,
            {
                assert(ov.take(i + 1).drop_last() == ov.take(i as int));
                assert(ov.take(i + 1).last() == objects@[i as int]@);
                assert(fits(ov[i as int]));
                let (bw, bh) = objects[i].bounds();
                if bw > max_w {
                    max_w = bw;
                }
                if bh > max_h {
                    max_h = bh;
                }
                i = i + 1;
            }
            assert(ov.take(objects@.len() as int) == ov);
            let w = match width {
                CanvasSize::Fixed(fw) => fw,
                CanvasSize::Auto => max_w,
            };
            let h = match height {
                CanvasSize::Fixed(fh) => fh,
                CanvasSize::Auto => max_h,
            };
            (w, h)
        },
    };
    if border.is_some() {
        if w < 3 {
            w = 3;
        }
        if h < 3 {
            h = 3;
        }
    }
    (w, h)
}

/// The object with the canvas-wide overflow and alignment applied to a rect
/// that has the default ones.
pub open spec fn with_defaults(o: DrawObjectView, ov: ContentOverflow, al: ContentAlign) -> DrawObjectView {
    match o {
        DrawObjectView::Rect(r) => DrawObjectView::Rect(
            crate::object::RectView {
                content_overflow: if r.content_overflow == ContentOverflow::Ellipsis { ov } else { r.content_overflow },
                content_align: if r.content_align == ContentAlign::Left { al } else { r.content_align },
                ..r
            },
        ),
        _ => o,
    }
}

/// All the objects with the canvas-wide defaults applied.
pub open spec fn all_with_defaults(objs: Seq<DrawObjectView>, ov: ContentOverflow, al: ContentAlign) -> Seq<DrawObjectView> {
    objs.map_values(|o: DrawObjectView| with_defaults(o, ov, al))
}

/// Copies of the objects with the canvas-wide defaults applied.
fn apply_defaults(objects: &Vec<DrawObject>, ov: ContentOverflow, al: ContentAlign) -> (r: Vec<DrawObject>)
    requires
        all_fit(objects_view(objects@)),
    ensures
        objects_view(r@) == all_with_defaults(objects_view(objects@), ov, al),
        all_fit(objects_view(r@)),
{
    let ghost v = objects_view(objects@);
    let mut out: Vec<DrawObject> = Vec::new();
    let mut i: usize = 0;
    while i < objects.len()
        invariant
            i <= objects@.len(),
            v == objects_view(objects@),
            all_fit(v),
            objects_view(out@) == all_with_defaults(v.take(i as int), ov, al),
            all_fit(objects_view(out@)),
        decreases objects.len() - i,
    {
        let ghost before = objects_view(out@);
        assert(v[i as int] == objects@[i as int]@);
        assert(fits(v[i as int]));
        let o = match &objects[i] {
            DrawObject::Rect(r) => DrawObject::Rect(
                Rect {
                    col: r.col,
                    row: r.row,
                    width: r.width,
                    height: r.height,
                    content: copy_opt_string(&r.content),
                    style: r.style,
                    content_overflow: if r.content_overflow == ContentOverflow::Ellipsis {
                        ov
                    } else {
                        r.content_overflow
                    },
                    content_align: if r.content_align == ContentAlign::Left {
                        al
                    } else {
                        r.content_align
                    },
                    id: copy_opt_string(&r.id),
                    legend: copy_opt_legend(&r.legend),
                },
            ),
            other => other.duplicate(),
        };
        assert(o@ == with_defaults(v[i as int], ov, al));
        out.push(o);
        assert(objects_view(out@) =~= before.push(o@));
        assert(v.take(i + 1) =~= v.take(i as int).push(v[i as int]));
        assert(all_fit(objects_view(out@))) by {
            assert forall|k: int| 0 <= k < objects_view(out@).len() implies fits(#[trigger] objects_view(out@)[k]) by {
                if k < before.len() {
                    assert(objects_view(out@)[k] == before[k]);
                }
            }
        }
        i = i + 1;
    }
    assert(v.take(objects@.len() as int) == v);
    out
}

/// What rendering the configuration gives: on a blank canvas of the computed
/// size, the border if any, then every object's structure, then every
/// object's text (rects taking the canvas-wide defaults); the rendered text,
/// or the first error, with collisions numbered and described.
pub open spec fn rendered_spec(cfg: ConfigView) -> Result<Seq<char>, ErrorView> {
    let size = canvas_size_spec(cfg.width, cfg.height, cfg.objects, cfg.border);
    let m0 = blank(size.0 as usize, size.1 as usize);
    let objs = all_with_defaults(cfg.objects, cfg.global_overflow, cfg.global_align);
    let (m1, e1) = match cfg.border {
        Some(b) => apply_steps(m0, border_steps(b, size.0, size.1), usize::MAX),
        None => (m0, None),
    };
    match e1 {
        Some(err) => Err(err),
        None => {
            let (m2, e2) = pass_result(m1, objs, objs.len(), true, cfg.collision);
            match e2 {
                Some((err, i)) => Err(enrich_spec(objs, err, i)),
                None => {
                    let (m3, e3) = pass_result(m2, objs, objs.len(), false, cfg.collision);
                    match e3 {
                        Some((err, i)) => Err(enrich_spec(objs, err, i)),
                        None => Ok(render_spec(m3)),
                    }
                },
            }
        },
    }
}

/// Renders the configuration: the canvas text, or the error that stopped it.
pub fn render_document(config: &CanvasConfig) -> (r: Result<String, UnidError>)
    requires
        all_fit(config@.objects),
        config.objects@.len() < usize::MAX,
        canvas_size_spec(config.width, config.height, config@.objects, config.border).0 < usize::MAX,
        canvas_size_spec(config.width, config.height, config@.objects, config.border).1 < usize::MAX,
    ensures
        match r {
            Ok(s) => rendered_spec(config@) == Ok::<Seq<char>, ErrorView>(s@),
            Err(e) => rendered_spec(config@) == Err::<Seq<char>, ErrorView>(e@),
        },
{
    let (width, height) = compute_canvas_size(config.width, config.height, &config.objects, config.border);
    let canvas = Canvas::new(width, height);
    let mut renderer = Renderer::new(canvas, config.collision);
    match config.border {
        Some(style) => {
            match renderer.draw_border(style) {
                Ok(()) => {},
                Err(e) => return Err(e),
            }
        },
        None => {},
    }
    let objects = apply_defaults(&config.objects, config.global_overflow, config.global_align);
    assert(renderer.registered() + objects_view(objects@) =~= objects_view(objects@));
    match renderer.draw_all(&objects) {
        Ok(()) => {},
        Err(e) => return Err(e),
    }
    Ok(renderer.render())
}

proof fn lemma_extent_covers(objs: Seq<DrawObjectView>)
    ensures
        forall|i: int| 0 <= i < objs.len() ==> bounds_spec(#[trigger] objs[i]).0 <= extent_spec(objs).0
            && bounds_spec(objs[i]).1 <= extent_spec(objs).1,
        extent_spec(objs).0 >= 1,
        extent_spec(objs).1 >= 1,
    decreases objs.len(),
{
    if objs.len() > 0 {
        let d = objs.drop_last();
        lemma_extent_covers(d);
        assert forall|i: int| 0 <= i < objs.len() implies bounds_spec(#[trigger] objs[i]).0 <= extent_spec(objs).0
            && bounds_spec(objs[i]).1 <= extent_spec(objs).1 by {
            if i < d.len() {
                assert(objs[i] == d[i]);
            }
        }
    }
}

/// An automatic canvas dimension is at least 1 and reaches past every
/// object; with a border the canvas is at least 3 by 3.
pub proof fn law_canvas_covers(
    width: CanvasSize,
    height: CanvasSize,
    objs: Seq<DrawObjectView>,
    border: Option<BorderStyle>,
)
    ensures
        ({
            let size = canvas_size_spec(width, height, objs, border);
            &&& width == CanvasSize::Auto ==> size.0 >= 1 && forall|i: int|
                0 <= i < objs.len() ==> bounds_spec(#[trigger] objs[i]).0 <= size.0
            &&& height == CanvasSize::Auto ==> size.1 >= 1 && forall|i: int|
                0 <= i < objs.len() ==> bounds_spec(#[trigger] objs[i]).1 <= size.1
            &&& border is Some ==> size.0 >= 3 && size.1 >= 3
        }),
{
    lemma_extent_covers(objs);
}

/// `a` comes no later than `b` in a listing: by row, then by column of the
/// top-left position.
pub open spec fn listed_before(a: DrawObjectView, b: DrawObjectView) -> bool {
    let pa = position_spec(a);
    let pb = position_spec(b);
    pa.1 < pb.1 || (pa.1 == pb.1 && pa.0 <= pb.0)
}

/// Where `x` goes in `s`: after the last element not listed after it.
pub open spec fn insert_pos(s: Seq<DrawObjectView>, x: DrawObjectView) -> nat
    decreases s.len(),
{
    if s.len() == 0 {
        0
    } else if listed_before(s.last(), x) {
        s.len()
    } else {
        insert_pos(s.drop_last(), x)
    }
}

/// The objects in listing order, equal positions kept in their order.
pub open spec fn sort_spec(s: Seq<DrawObjectView>) -> Seq<DrawObjectView>
    decreases s.len(),
{
    if s.len() == 0 {
        s
    } else {
        let t = sort_spec(s.drop_last());
        t.insert(insert_pos(t, s.last()) as int, s.last())
    }
}

proof fn lemma_insert_pos_bound(s: Seq<DrawObjectView>, x: DrawObjectView)
    ensures
        insert_pos(s, x) <= s.len(),
    decreases s.len(),
{
    if s.len() > 0 && !listed_before(s.last(), x) {
        lemma_insert_pos_bound(s.drop_last(), x);
    }
}

proof fn lemma_sort_len(s: Seq<DrawObjectView>)
    ensures
        sort_spec(s).len() == s.len(),
    decreases s.len(),
{
    if s.len() > 0 {
        lemma_sort_len(s.drop_last());
        lemma_insert_pos_bound(sort_spec(s.drop_last()), s.last());
    }
}

/// The objects sorted for listing.
fn sort_for_listing(objects: &Vec<DrawObject>) -> (r: Vec<DrawObject>)
    ensures
        objects_view(r@) == sort_spec(objects_view(objects@)),
{
    let ghost v = objects_view(objects@);
    let mut sorted: Vec<DrawObject> = Vec::new();
    let mut i: usize = 0;
    assert(v.take(0) =~= Seq::<DrawObjectView>::empty());
    assert(objects_view(sorted@) =~= Seq::<DrawObjectView>::empty());
    while i < objects.len()
        invariant
            i <= objects@.len(),
            v == objects_view(objects@),
            objects_view(sorted@) == sort_spec(v.take(i as int)),
        decreases objects.len() - i,
    {
        let x = objects[i].duplicate();
        let (xc, xr) = x.position();
        let ghost t = objects_view(sorted@);
        assert(v.take(i + 1).drop_last() == v.take(i as int));
        assert(v.take(i + 1).last() == x@);
        let mut p = sorted.len();
        assert(t.take(p as int) == t);
        while p > 0
            invariant
                p <= sorted@.len(),
                t == objects_view(sorted@),
                insert_pos(t, x@) == insert_pos(t.take(p as int), x@),
                (xc, xr) == position_spec(x@),
            ensures
                p <= sorted@.len(),
                insert_pos(t, x@) == insert_pos(t.take(p as int), x@),
                p == 0 || listed_before(t.take(p as int).last(), x@),
            decreases p,
        {
            let (pc, pr) = sorted[p - 1].position();
            assert(t.take(p as int).last() == sorted@[p - 1]@);
            if pr < xr || (pr == xr && pc <= xc) {
                break;
            }
            assert(t.take(p as int).drop_last() == t.take(p - 1));
            p = p - 1;
        }
        assert(insert_pos(t, x@) == p);
        let ghost xv = x@;
        sorted.insert(p, x);
        assert(objects_view(sorted@) =~= t.insert(p as int, xv));
        i = i + 1;
    }
    assert(v.take(objects@.len() as int) == v);
    sorted
}

/// "on" or "off".
pub open spec fn on_off(b: bool) -> Seq<char> {
    if b { "on"@ } else { "off"@ }
}

/// The numbered summaries of the objects.
pub open spec fn listing(objs: Seq<DrawObjectView>) -> Seq<Seq<char>> {
    Seq::new(objs.len(), |i: int| "  "@ + decimal((i + 1) as nat) + ". "@ + summary_spec(objs[i]))
}

/// The lines listing a configuration: canvas size (marked when automatic),
/// collision mode, border, object count, then the objects by row and column.
pub open spec fn list_spec(cfg: ConfigView) -> Seq<Seq<char>> {
    let size = canvas_size_spec(cfg.width, cfg.height, cfg.objects, cfg.border);
    let auto = cfg.width == CanvasSize::Auto && cfg.height == CanvasSize::Auto;
    let head = seq![
        "Canvas: "@ + decimal(size.0 as nat) + "x"@ + decimal(size.1 as nat) + if auto {
            " (auto)"@
        } else {
            Seq::empty()
        },
        "Collision: "@ + on_off(cfg.collision),
    ];
    let border = match cfg.border {
        Some(b) => seq!["Border: "@ + border_style_name(b)],
        None => Seq::empty(),
    };
    head + border + seq!["Objects: "@ + decimal(cfg.objects.len())] + listing(sort_spec(cfg.objects))
}

/// The views of a list of strings.
pub open spec fn strings_view(v: Seq<String>) -> Seq<Seq<char>> {
    v.map_values(|s: String| s@)
}

/// Appends a string made of `v`.
fn push_line(lines: &mut Vec<String>, v: &Vec<char>)
    ensures
        strings_view(final(lines)@) == strings_view(old(lines)@).push(v@),
{
    let ghost before = strings_view(lines@);
    lines.push(string_from_chars(v.as_slice()));
    assert(strings_view(lines@) =~= before.push(v@));
}

/// The lines that list a configuration.
pub fn list_lines(config: &CanvasConfig) -> (r: Vec<String>)
    requires
        all_fit(config@.objects),
    ensures
        strings_view(r@) == list_spec(config@),
{
    let (width, height) = compute_canvas_size(config.width, config.height, &config.objects, config.border);
    let mut lines: Vec<String> = Vec::new();
    let mut l: Vec<char> = Vec::new();
    push_str(&mut l, "Canvas: ");
    push_decimal(&mut l, width);
    push_str(&mut l, "x");
    push_decimal(&mut l, height);
    let auto = match (config.width, config.height) {
        (CanvasSize::Auto, CanvasSize::Auto) => true,
        _ => false,
    };
    if auto {
        push_str(&mut l, " (auto)");
    }
    let ghost l0 = l@;
    push_line(&mut lines, &l);
    let mut l: Vec<char> = Vec::new();
    push_str(&mut l, "Collision: ");
    if config.collision {
        push_str(&mut l, "on");
    } else {
        push_str(&mut l, "off");
    }
    push_line(&mut lines, &l);
    let ghost l1 = l@;
    assert(strings_view(lines@) =~= seq![l0, l1]);
    let ghost head = strings_view(lines@);
    match config.border {
        Some(b) => {
            let mut l: Vec<char> = Vec::new();
            push_str(&mut l, "Border: ");
            push_str(&mut l, crate::object::border_style_str(b));
            push_line(&mut lines, &l);
        },
        None => {},
    }
    let ghost with_border = strings_view(lines@);
    let mut l: Vec<char> = Vec::new();
    push_str(&mut l, "Objects: ");
    push_decimal(&mut l, config.objects.len());
    push_line(&mut lines, &l);
    let ghost fixed = strings_view(lines@);
    let sorted = sort_for_listing(&config.objects);
    let ghost sv = objects_view(sorted@);
    proof {
        lemma_sort_len(objects_view(config.objects@));
    }
    let mut i: usize = 0;
    while i < sorted.len()
        invariant
            i <= sorted@.len(),
            sv == objects_view(sorted@),
            strings_view(lines@) == fixed + listing(sv).take(i as int),
        decreases sorted.len() - i,
    {
        let mut l: Vec<char> = Vec::new();
        push_str(&mut l, "  ");
        push_decimal(&mut l, i + 1);
        push_str(&mut l, ". ");
        let sm = sorted[i].summary();
        push_str(&mut l, sm.as_str());
        assert(sv[i as int] == sorted@[i as int]@);
        push_line(&mut lines, &l);
        assert(listing(sv).take(i + 1) =~= listing(sv).take(i as int).push(l@));
        i = i + 1;
    }
    assert(listing(sv).take(sorted@.len() as int) == listing(sv));
    proof {
        let auto_s = if auto { " (auto)"@ } else { Seq::<char>::empty() };
        assert(l0 =~= "Canvas: "@ + decimal(width as nat) + "x"@ + decimal(height as nat) + auto_s);
        assert(l1 =~= "Collision: "@ + on_off(config.collision));
    }
    lines
}

/// Each object comes no later than every object after it.
pub open spec fn in_listing_order(s: Seq<DrawObjectView>) -> bool {
    forall|i: int, j: int| 0 <= i < j < s.len() ==> listed_before(#[trigger] s[i], #[trigger] s[j])
}

proof fn lemma_insert_pos_props(t: Seq<DrawObjectView>, x: DrawObjectView)
    requires
        in_listing_order(t),
    ensures
        insert_pos(t, x) <= t.len(),
        forall|i: int| 0 <= i < insert_pos(t, x) ==> listed_before(#[trigger] t[i], x),
        forall|i: int| insert_pos(t, x) <= i < t.len() ==> !listed_before(#[trigger] t[i], x),
    decreases t.len(),
{
    if t.len() > 0 {
        let d = t.drop_last();
        assert(in_listing_order(d)) by {
            assert forall|i: int, j: int| 0 <= i < j < d.len() implies listed_before(#[trigger] d[i], #[trigger] d[j]) by {
                assert(d[i] == t[i] && d[j] == t[j]);
            }
        }
        lemma_insert_pos_props(d, x);
        if listed_before(t.last(), x) {
            assert forall|i: int| 0 <= i < insert_pos(t, x) implies listed_before(#[trigger] t[i], x) by {
                if i < t.len() - 1 {
                    assert(listed_before(t[i], t[t.len() - 1]));
                }
            }
        } else {
            assert forall|i: int| 0 <= i < insert_pos(t, x) implies listed_before(#[trigger] t[i], x) by {
                assert(t[i] == d[i]);
            }
            assert forall|i: int| insert_pos(t, x) <= i < t.len() implies !listed_before(#[trigger] t[i], x) by {
                if i < t.len() - 1 {
                    assert(t[i] == d[i]);
                }
            }
        }
    }
}

/// Listing sorts the objects by row, then column, keeping every object: the
/// result is in listing order and holds the same objects as often.
pub proof fn law_listing_sorted(s: Seq<DrawObjectView>)
    ensures
        in_listing_order(sort_spec(s)),
        sort_spec(s).to_multiset() == s.to_multiset(),
    decreases s.len(),
{
    broadcast use vstd::seq_lib::to_multiset_build, vstd::seq_lib::to_multiset_insert;

    if s.len() == 0 {
        assert(in_listing_order(sort_spec(s)));
    } else {
        let d = s.drop_last();
        let x = s.last();
        law_listing_sorted(d);
        let t = sort_spec(d);
        lemma_insert_pos_props(t, x);
        let p = insert_pos(t, x) as int;
        let u = t.insert(p, x);
        assert(u == sort_spec(s));
        assert forall|i: int, j: int| 0 <= i < j < u.len() implies listed_before(#[trigger] u[i], #[trigger] u[j]) by {
            if j < p {
                assert(u[i] == t[i] && u[j] == t[j]);
            } else if j == p {
                assert(u[i] == t[i]);
            } else if i < p {
                assert(u[i] == t[i] && u[j] == t[j - 1]);
                assert(listed_before(t[i], x));
                assert(!listed_before(t[j - 1], x));
            } else if i == p {
                assert(u[j] == t[j - 1]);
                assert(!listed_before(t[j - 1], x));
            } else {
                assert(u[i] == t[i - 1] && u[j] == t[j - 1]);
            }
        }
        assert(s == d.push(x));
    }
}

/// The report of an object reaching past the canvas.
pub open spec fn bounds_message(i: int, o: DrawObjectView, w: int, h: int) -> Seq<char> {
    let b = bounds_spec(o);
    "object #"@ + decimal((i + 1) as nat) + " ("@ + collision_desc_spec(o) + "): bounds ("@ + decimal(
        b.0 as nat,
    ) + "x"@ + decimal(b.1 as nat) + ") exceed canvas ("@ + decimal(w as nat) + "x"@ + decimal(h as nat)
        + ")"@
}

/// The reports of the first `k` objects that reach past a `w` by `h` canvas.
pub open spec fn bounds_messages(objs: Seq<DrawObjectView>, w: int, h: int, k: nat) -> Seq<Seq<char>>
    decreases k,
{
    if k == 0 {
        Seq::empty()
    } else {
        let before = bounds_messages(objs, w, h, (k - 1) as nat);
        let b = bounds_spec(objs[k - 1]);
        if b.0 > w || b.1 > h {
            before.push(bounds_message(k - 1, objs[k - 1], w, h))
        } else {
            before
        }
    }
}

/// The canvas after drawing the first `k` objects one by one with collision
/// checks, each object's failure ignored, and the reports of those failures.
pub open spec fn lint_draws(m0: CanvasView, objs: Seq<DrawObjectView>, k: nat) -> (CanvasView, Seq<Seq<char>>)
    decreases k,
{
    if k == 0 {
        (m0, Seq::empty())
    } else {
        let (m, errs) = lint_draws(m0, objs, (k - 1) as nat);
        let (m2, e) = apply_steps(m, draw_steps(objs[k - 1], true), (k - 1) as usize);
        (m2, match e {
            Some(err) => errs.push(message_spec(enrich_spec(objs.take(k as int), err, k - 1))),
            None => errs,
        })
    }
}

/// The collision reports of a check: on a blank canvas of the size, with the
/// border drawn if any (its failure ignored), each object drawn in turn.
pub open spec fn collision_messages(cfg: ConfigView, w: int, h: int) -> Seq<Seq<char>> {
    let m0 = blank(w as usize, h as usize);
    let m1 = match cfg.border {
        Some(b) => apply_steps(m0, border_steps(b, w, h), usize::MAX).0,
        None => m0,
    };
    lint_draws(m1, cfg.objects, cfg.objects.len()).1
}

/// Each report as a list item.
pub open spec fn items(ms: Seq<Seq<char>>) -> Seq<Seq<char>> {
    ms.map_values(|m: Seq<char>| "  - "@ + m)
}

/// A titled section of reports, absent when there are none.
pub open spec fn section(title: Seq<char>, ms: Seq<Seq<char>>) -> Seq<Seq<char>> {
    if ms.len() > 0 {
        seq![title] + items(ms)
    } else {
        Seq::empty()
    }
}

/// The lines of a check and whether it failed. Objects reaching past the
/// canvas are errors when collision is on (then every collision is one too),
/// else warnings; "OK" when there is neither.
pub open spec fn lint_spec(cfg: ConfigView) -> (Seq<Seq<char>>, bool) {
    let size = canvas_size_spec(cfg.width, cfg.height, cfg.objects, cfg.border);
    let oob = bounds_messages(cfg.objects, size.0, size.1, cfg.objects.len());
    let warnings = if cfg.collision { Seq::empty() } else { oob };
    let errors = if cfg.collision {
        oob + collision_messages(cfg, size.0, size.1)
    } else {
        Seq::empty()
    };
    let head = seq![
        "Canvas: "@ + decimal(size.0 as nat) + "x"@ + decimal(size.1 as nat),
        "Collision: "@ + on_off(cfg.collision),
        "Objects: "@ + decimal(cfg.objects.len()),
    ];
    let ok = if warnings.len() == 0 && errors.len() == 0 { seq!["OK"@] } else { Seq::empty() };
    (head + section("Warnings:"@, warnings) + section("Errors:"@, errors) + ok, errors.len() > 0)
}

/// Appends the reports as a titled section.
fn push_section(lines: &mut Vec<String>, title: &str, ms: &Vec<Vec<char>>)
    ensures
        strings_view(final(lines)@) == strings_view(old(lines)@) + section(title@, crate::textops::seqs_of(ms@)),
{
    let ghost mv = crate::textops::seqs_of(ms@);
    if ms.len() == 0 {
        assert(strings_view(lines@) + section(title@, mv) =~= strings_view(lines@));
        return;
    }
    let ghost start = strings_view(lines@);
    let mut t: Vec<char> = Vec::new();
    push_str(&mut t, title);
    push_line(lines, &t);
    let mut i: usize = 0;
    while i < ms.len()
        invariant
            i <= ms@.len(),
            mv == crate::textops::seqs_of(ms@),
            strings_view(lines@) == start + seq![title@] + items(mv).take(i as int),
        decreases ms.len() - i,
    {
        let mut l: Vec<char> = Vec::new();
        push_str(&mut l, "  - ");
        push_all(&mut l, ms[i].as_slice());
        assert(mv[i as int] == ms@[i as int]@);
        push_line(lines, &l);
        assert(items(mv).take(i + 1) =~= items(mv).take(i as int).push(l@));
        i = i + 1;
    }
    assert(items(mv).take(ms@.len() as int) == items(mv));
    assert(start + seq![title@] + items(mv) =~= start + section(title@, mv));
}

/// Checks a configuration: the lines to show and whether it failed.
pub fn lint_report(config: &CanvasConfig) -> (r: (Vec<String>, bool))
    requires
        all_fit(config@.objects),
        config.objects@.len() < usize::MAX,
        config.collision ==> canvas_size_spec(config.width, config.height, config@.objects, config.border).0 < usize::MAX,
        config.collision ==> canvas_size_spec(config.width, config.height, config@.objects, config.border).1 < usize::MAX,
    ensures
        strings_view(r.0@) == lint_spec(config@).0,
        r.1 == lint_spec(config@).1,
{
    let ghost cv = config@;
    let ghost objs = cv.objects;
    let (width, height) = compute_canvas_size(config.width, config.height, &config.objects, config.border);
    let mut oob: Vec<Vec<char>> = Vec::new();
    let mut i: usize = 0;
    assert(crate::textops::seqs_of(oob@) =~= Seq::<Seq<char>>::empty());
    while i < config.objects.len()
        invariant
            i <= config.objects@.len(),
            objs == objects_view(config.objects@),
            all_fit(objs),
            crate::textops::seqs_of(oob@) == bounds_messages(objs, width as int, height as int, i as nat),
        decreases config.objects.len() - i,
    {
        assert(objs[i as int] == config.objects@[i as int]@);
        assert(fits(objs[i as int]));
        let (bw, bh) = config.objects[i].bounds();
        if bw > width || bh > height {
            let mut m: Vec<char> = Vec::new();
            push_str(&mut m, "object #");
            push_decimal(&mut m, i + 1);
            push_str(&mut m, " (");
            let d = config.objects[i].collision_desc();
            push_str(&mut m, d.as_str());
            push_str(&mut m, "): bounds (");
            push_decimal(&mut m, bw);
            push_str(&mut m, "x");
            push_decimal(&mut m, bh);
            push_str(&mut m, ") exceed canvas (");
            push_decimal(&mut m, width);
            push_str(&mut m, "x");
            push_decimal(&mut m, height);
            push_str(&mut m, ")");
            let ghost before = crate::textops::seqs_of(oob@);
            assert(m@ =~= bounds_message(i as int, objs[i as int], width as int, height as int));
            oob.push(m);
            assert(crate::textops::seqs_of(oob@) =~= before.push(
                bounds_message(i as int, objs[i as int], width as int, height as int),
            ));
        }
        i = i + 1;
    }
    let mut errors: Vec<Vec<char>> = Vec::new();
    let mut warnings: Vec<Vec<char>> = Vec::new();
    if config.collision {
        errors = oob;
        let ghost ev = crate::textops::seqs_of(errors@);
        let canvas = Canvas::new(width, height);
        let mut renderer = Renderer::new(canvas, true);
        match config.border {
            Some(style) => {
                let _ = renderer.draw_border(style);
            },
            None => {},
        }
        let ghost m1 = renderer.drawing();
        let mut k: usize = 0;
        assert(objs.take(0) =~= Seq::<DrawObjectView>::empty());
        assert(ev + Seq::<Seq<char>>::empty() =~= ev);
        while k < config.objects.len()
            invariant
                k <= config.objects@.len() < usize::MAX,
                objs == objects_view(config.objects@),
                all_fit(objs),
                renderer.wf(),
                renderer.checks_collision(),
                renderer.registered() == objs.take(k as int),
                (renderer.drawing(), crate::textops::seqs_of(errors@).skip(ev.len() as int)) == lint_draws(
                    m1,
                    objs,
                    k as nat,
                ),
                crate::textops::seqs_of(errors@).take(ev.len() as int) == ev,
                crate::textops::seqs_of(errors@).len() >= ev.len(),
            decreases config.objects.len() - k,
        {
            assert(objs[k as int] == config.objects@[k as int]@);
            assert(fits(objs[k as int]));
            let ghost before = crate::textops::seqs_of(errors@);
            let ghost m = renderer.drawing();
            assert(objs.take(k + 1) =~= objs.take(k as int).push(objs[k as int]));
            match renderer.draw(&config.objects[k]) {
                Ok(()) => {},
                Err(e) => {
                    let msg = e.to_string();
                    let mv = chars_of(msg.as_str());
                    errors.push(mv);
                    assert(crate::textops::seqs_of(errors@) =~= before.push(mv@));
                    assert(crate::textops::seqs_of(errors@).skip(ev.len() as int) =~= before.skip(ev.len() as int).push(mv@));
                    assert(crate::textops::seqs_of(errors@).take(ev.len() as int) =~= before.take(ev.len() as int));
                },
            }
            k = k + 1;
        }
        assert(crate::textops::seqs_of(errors@) =~= ev + crate::textops::seqs_of(errors@).skip(ev.len() as int));
    } else {
        warnings = oob;
    }
    let mut lines: Vec<String> = Vec::new();
    let mut l: Vec<char> = Vec::new();
    push_str(&mut l, "Canvas: ");
    push_decimal(&mut l, width);
    push_str(&mut l, "x");
    push_decimal(&mut l, height);
    push_line(&mut lines, &l);
    let ghost l0 = l@;
    let mut l: Vec<char> = Vec::new();
    push_str(&mut l, "Collision: ");
    if config.collision {
        push_str(&mut l, "on");
    } else {
        push_str(&mut l, "off");
    }
    push_line(&mut lines, &l);
    let ghost l1 = l@;
    let mut l: Vec<char> = Vec::new();
    push_str(&mut l, "Objects: ");
    push_decimal(&mut l, config.objects.len());
    push_line(&mut lines, &l);
    let ghost l2 = l@;
    assert(strings_view(lines@) =~= seq![l0, l1, l2]);
    push_section(&mut lines, "Warnings:", &warnings);
    push_section(&mut lines, "Errors:", &errors);
    let failed = errors.len() > 0;
    if warnings.len() == 0 && errors.len() == 0 {
        let mut l: Vec<char> = Vec::new();
        push_str(&mut l, "OK");
        push_line(&mut lines, &l);
    }
    proof {
        assert(l0 =~= "Canvas: "@ + decimal(width as nat) + "x"@ + decimal(height as nat));
        assert(l1 =~= "Collision: "@ + on_off(config.collision));
        assert(l2 =~= "Objects: "@ + decimal(config.objects.len() as nat));
    }
    (lines, failed)
}

/// Arrowhead priority: a resolved arrow's head is drawn from the family the
/// arrow names, else from the description-wide arrowhead, else from the
/// default family (→←↑↓), turned to the arrow's direction.
pub proof fn law_arrowhead_priority(slots: Seq<SlotView>, a: ArrowRef, global: Option<char>, dir: Dir)
    requires
        resolve_spec(slots, a, global) is Ok,
    ensures
        ({
            let o = resolve_spec(slots, a, global)->Ok_0;
            &&& o is Arrow
            &&& tip_spec(o->Arrow_0.head, dir) == match (a.head, global) {
                (Some(h), _) => resolve_head_spec(h, dir),
                (None, Some(g)) => resolve_head_spec(g, dir),
                (None, None) => family_head(0, dir),
            }
        }),
{
}

proof fn lemma_duplicate_found(slots: Seq<SlotView>, i: int, j: int, k: nat)
    requires
        0 <= i < j < k <= slots.len(),
        slot_id(slots[i]) is Some,
        slot_id(slots[i]) == slot_id(slots[j]),
    ensures
        duplicate_error(slots, k) is Some,
    decreases k,
{
    if j < k - 1 {
        lemma_duplicate_found(slots, i, j, (k - 1) as nat);
        lemma_duplicate_error_stays(slots, (k - 1) as nat, k);
    } else {
        if duplicate_error(slots, (k - 1) as nat) is None {
            assert(slot_id(slots[i]) == slot_id(slots[k - 1]));
        }
    }
}

/// Ids are unique: once canvas and collision are declared, a description in
/// which two objects share an id is refused with a duplicate-id error.
pub proof fn law_duplicate_ids_refused(cmds: Seq<CommandView>, over: Option<CollisionMode>, i: int, j: int)
    requires
        0 <= i < j < slots_spec(cmds).len(),
        slot_id(slots_spec(cmds)[i]) is Some,
        slot_id(slots_spec(cmds)[i]) == slot_id(slots_spec(cmds)[j]),
        header_spec(cmds).width is Some,
        header_spec(cmds).height is Some,
        header_spec(cmds).collision is Some,
    ensures
        process_spec(cmds, over) is Err,
        process_spec(cmds, over)->Err_0 matches ErrorView::Parse { line, .. } && line == 0,
{
    let slots = slots_spec(cmds);
    lemma_duplicate_found(slots, i, j, slots.len());
    lemma_duplicate_error_is_parse(slots, slots.len());
}

proof fn lemma_duplicate_error_is_parse(slots: Seq<SlotView>, k: nat)
    requires
        k <= slots.len(),
    ensures
        duplicate_error(slots, k) matches Some(e) ==> (e matches ErrorView::Parse { line, .. } && line == 0),
    decreases k,
{
    if k > 0 {
        lemma_duplicate_error_is_parse(slots, (k - 1) as nat);
    }
}

/// With collision off (declared, or forced on the command line), rendering
/// never fails with a collision: overlapping objects are drawn over each other.
pub proof fn law_render_collision_off(cfg: ConfigView)
    requires
        !cfg.collision,
    ensures
        rendered_spec(cfg) matches Err(e) ==> !(e is Collision),
{
    let size = canvas_size_spec(cfg.width, cfg.height, cfg.objects, cfg.border);
    let m0 = blank(size.0 as usize, size.1 as usize);
    let objs = all_with_defaults(cfg.objects, cfg.global_overflow, cfg.global_align);
    if let Some(b) = cfg.border {
        crate::renderer::overlap::lemma_border_unchecked(b, size.0, size.1);
        crate::renderer::overlap::lemma_apply_unchecked(m0, border_steps(b, size.0, size.1), usize::MAX);
    }
    let (m1, e1) = match cfg.border {
        Some(b) => apply_steps(m0, border_steps(b, size.0, size.1), usize::MAX),
        None => (m0, None),
    };
    crate::renderer::overlap::law_pass_collision_off(m1, objs, true);
    let m2 = pass_result(m1, objs, objs.len(), true, false).0;
    crate::renderer::overlap::law_pass_collision_off(m2, objs, false);
}

proof fn lemma_extent_attained(objs: Seq<DrawObjectView>)
    ensures
        extent_spec(objs).0 == 1 || exists|i: int| 0 <= i < objs.len() && bounds_spec(#[trigger] objs[i]).0 == extent_spec(objs).0,
        extent_spec(objs).1 == 1 || exists|i: int| 0 <= i < objs.len() && bounds_spec(#[trigger] objs[i]).1 == extent_spec(objs).1,
    decreases objs.len(),
{
    if objs.len() > 0 {
        let d = objs.drop_last();
        lemma_extent_attained(d);
        let n = objs.len() - 1;
        assert(objs[n] == objs.last());
        if extent_spec(d).0 != 1 && bounds_spec(objs.last()).0 <= extent_spec(d).0 {
            let i = choose|i: int| 0 <= i < d.len() && bounds_spec(#[trigger] d[i]).0 == extent_spec(d).0;
            assert(objs[i] == d[i]);
        }
        if extent_spec(d).1 != 1 && bounds_spec(objs.last()).1 <= extent_spec(d).1 {
            let i = choose|i: int| 0 <= i < d.len() && bounds_spec(#[trigger] d[i]).1 == extent_spec(d).1;
            assert(objs[i] == d[i]);
        }
    }
}

/// An automatic canvas without border is the smallest that contains every
/// object: each automatic dimension is 1 or reached by some object.
pub proof fn law_canvas_minimal(width: CanvasSize, height: CanvasSize, objs: Seq<DrawObjectView>)
    ensures
        ({
            let size = canvas_size_spec(width, height, objs, None);
            &&& width == CanvasSize::Auto ==> size.0 == 1 || exists|i: int|
                0 <= i < objs.len() && bounds_spec(#[trigger] objs[i]).0 == size.0
            &&& height == CanvasSize::Auto ==> size.1 == 1 || exists|i: int|
                0 <= i < objs.len() && bounds_spec(#[trigger] objs[i]).1 == size.1
        }),
{
    lemma_extent_attained(objs);
}

} // verus!

