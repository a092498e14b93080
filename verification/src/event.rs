//! Event details and the tap recognition: touches (or mouse presses) in
//! progress, and the tap, long tap and cancel tap events they turn into.
use vstd::prelude::*;

verus! {

/// A touch that moves farther than this (in CSS pixels, on either axis) is no tap.
pub const CANCEL_TAP_DIST: i32 = 5;

/// A touch held this long (in milliseconds) is a long tap.
pub const LONG_TAP_TIME_MS: i32 = 500;

/// A touch in progress.
#[derive(Debug, Clone, Copy, PartialEq, Eq, Structural)]
pub struct CurrentTouch {
    /// The touch identifier (0 for the mouse).
    pub identifier: i32,
    /// The element the touch started on.
    pub target: u64,
    /// Where the touch started.
    pub client_x: i32,
    pub client_y: i32,
    /// The timer that fires the long tap, while it is pending.
    pub long_tap_timer: Option<i32>,
}

/// A tap event
///
/// Tap events are generated from DOM `touch*` or `mouse*` events automatically.
pub struct TapEvent {
    propagation_stopped: bool,
    default_prevented: bool,
    client_x: i32,
    client_y: i32,
}

impl TapEvent {
    /// A tap event at a point, not stopped nor prevented.
    pub fn new(client_x: i32, client_y: i32) -> (r: Self)
        ensures
            r.client_x_spec() == client_x,
            r.client_y_spec() == client_y,
            !r.propagation_stopped_spec(),
            !r.default_prevented_spec(),
    {
        TapEvent { propagation_stopped: false, default_prevented: false, client_x, client_y }
    }

    pub closed spec fn client_x_spec(&self) -> i32 {
        self.client_x
    }

    pub closed spec fn client_y_spec(&self) -> i32 {
        self.client_y
    }

    pub closed spec fn propagation_stopped_spec(&self) -> bool {
        self.propagation_stopped
    }

    pub closed spec fn default_prevented_spec(&self) -> bool {
        self.default_prevented
    }

    pub fn client_x(&self) -> (r: i32)
        ensures
            r == self.client_x_spec(),
    {
        self.client_x
    }

    pub fn client_y(&self) -> (r: i32)
        ensures
            r == self.client_y_spec(),
    {
        self.client_y
    }

    pub fn stop_propagation(&mut self)
        ensures
            final(self).propagation_stopped_spec(),
            final(self).default_prevented_spec() == old(self).default_prevented_spec(),
            final(self).client_x_spec() == old(self).client_x_spec(),
            final(self).client_y_spec() == old(self).client_y_spec(),
    {
        self.propagation_stopped = true;
    }

    pub fn propagation_stopped(&self) -> (r: bool)
        ensures
            r == self.propagation_stopped_spec(),
    {
        self.propagation_stopped
    }

    pub fn prevent_default(&mut self)
        ensures
            final(self).default_prevented_spec(),
            final(self).propagation_stopped_spec() == old(self).propagation_stopped_spec(),
            final(self).client_x_spec() == old(self).client_x_spec(),
            final(self).client_y_spec() == old(self).client_y_spec(),
    {
        self.default_prevented = true;
    }

    pub fn default_prevented(&self) -> (r: bool)
        ensures
            r == self.default_prevented_spec(),
    {
        self.default_prevented
    }
}

/// A tap event to dispatch: the element it bubbles from and where the touch
/// started.
#[derive(Debug, Clone, Copy, PartialEq, Eq, Structural)]
pub struct TapDispatch {
    pub target: u64,
    pub client_x: i32,
    pub client_y: i32,
}

/// What ends a touch: the long tap timer to clear (where it is still
/// pending), and the event to dispatch.
#[derive(Debug, Clone, Copy, PartialEq, Eq, Structural)]
pub struct TouchEnd {
    pub clear_timer: Option<i32>,
    pub event: TapDispatch,
}

/// `i` is the first position of a touch with that identifier.
pub open spec fn is_first_touch(cur: Seq<CurrentTouch>, identifier: i32, i: int) -> bool {
    &&& 0 <= i < cur.len()
    &&& cur[i].identifier == identifier
    &&& forall|j: int| 0 <= j < i ==> cur[j].identifier != identifier
}

/// The first position of a touch with that identifier, or -1.
pub open spec fn touch_pos(cur: Seq<CurrentTouch>, identifier: i32) -> int {
    if exists|i: int| is_first_touch(cur, identifier, i) {
        choose|i: int| is_first_touch(cur, identifier, i)
    } else {
        -1
    }
}

/// `i` is the first position of a touch on that element.
pub open spec fn is_first_on(cur: Seq<CurrentTouch>, target: u64, i: int) -> bool {
    &&& 0 <= i < cur.len()
    &&& cur[i].target == target
    &&& forall|j: int| 0 <= j < i ==> cur[j].target != target
}

/// The first position of a touch on that element, or -1.
pub open spec fn target_pos(cur: Seq<CurrentTouch>, target: u64) -> int {
    if exists|i: int| is_first_on(cur, target, i) {
        choose|i: int| is_first_on(cur, target, i)
    } else {
        -1
    }
}

/// The touches without position `i`: the last touch takes its place.
pub open spec fn swap_removed(cur: Seq<CurrentTouch>, i: int) -> Seq<CurrentTouch> {
    cur.update(i, cur.last()).drop_last()
}

/// The distance of two coordinates.
pub open spec fn dist(a: int, b: int) -> int {
    if a >= b {
        a - b
    } else {
        b - a
    }
}

/// The touch moved to `(x, y)` is too far from its start for a tap.
pub open spec fn moved_away(t: CurrentTouch, x: i32, y: i32) -> bool {
    dist(t.client_x as int, x as int) > CANCEL_TAP_DIST || dist(t.client_y as int, y as int)
        > CANCEL_TAP_DIST
}

/// The event that a touch ends with.
pub open spec fn end_of(t: CurrentTouch) -> TouchEnd {
    TouchEnd {
        clear_timer: t.long_tap_timer,
        event: TapDispatch { target: t.target, client_x: t.client_x, client_y: t.client_y },
    }
}

/// The touches in progress.
pub struct TouchTracker {
    cur: Vec<CurrentTouch>,
    touch_mode: bool,
}

/// The abstract state of a tracker: the touches in progress, in order, and
/// whether touch events (rather than the mouse) drive it.
pub struct TrackerView {
    pub cur: Seq<CurrentTouch>,
    pub touch_mode: bool,
}

impl View for TouchTracker {
    type V = TrackerView;

    closed spec fn view(&self) -> TrackerView {
        TrackerView { cur: self.cur@, touch_mode: self.touch_mode }
    }
}

proof fn lemma_first_touch_unique(cur: Seq<CurrentTouch>, identifier: i32, i: int)
    requires
        is_first_touch(cur, identifier, i),
    ensures
        touch_pos(cur, identifier) == i,
{
    let k = touch_pos(cur, identifier);
    assert(is_first_touch(cur, identifier, k));
    if k < i {
        assert(cur[k].identifier != identifier);
    } else if k > i {
        assert(cur[i].identifier != identifier);
    }
}

proof fn lemma_first_on_unique(cur: Seq<CurrentTouch>, target: u64, i: int)
    requires
        is_first_on(cur, target, i),
    ensures
        target_pos(cur, target) == i,
{
    let k = target_pos(cur, target);
    assert(is_first_on(cur, target, k));
    if k < i {
        assert(cur[k].target != target);
    } else if k > i {
        assert(cur[i].target != target);
    }
}

impl TouchTracker {
    /// No touch in progress, not in touch mode.
    pub fn new() -> (r: Self)
        ensures
            r@.cur == Seq::<CurrentTouch>::empty(),
            !r@.touch_mode,
    {
        TouchTracker { cur: Vec::new(), touch_mode: false }
    }

    pub fn touch_mode(&self) -> (r: bool)
        ensures
            r == self@.touch_mode,
    {
        self.touch_mode
    }

    /// The position of the first touch with that identifier.
    fn find(&self, identifier: i32) -> (r: Option<usize>)
        ensures
            match r {
                Some(i) => i < self@.cur.len() && touch_pos(self@.cur, identifier) == i,
                None => touch_pos(self@.cur, identifier) == -1,
            },
    {
        let n = self.cur.len();
        let mut i: usize = 0;
        while i < n
            invariant
                n == self.cur@.len(),
                i <= n,
                forall|j: int| 0 <= j < i ==> self.cur@[j].identifier != identifier,
            decreases n - i,
        {
            if self.cur[i].identifier == identifier {
                proof {
                    lemma_first_touch_unique(self.cur@, identifier, i as int);
                }
                return Some(i);
            }
            i = i + 1;
        }
        assert(!exists|i: int| is_first_touch(self.cur@, identifier, i));
        None
    }

    /// The position of the first touch on that element.
    fn find_target(&self, target: u64) -> (r: Option<usize>)
        ensures
            match r {
                Some(i) => i < self@.cur.len() && target_pos(self@.cur, target) == i,
                None => target_pos(self@.cur, target) == -1,
            },
    {
        let n = self.cur.len();
        let mut i: usize = 0;
        while i < n
            invariant
                n == self.cur@.len(),
                i <= n,
                forall|j: int| 0 <= j < i ==> self.cur@[j].target != target,
            decreases n - i,
        {
            if self.cur[i].target == target {
                proof {
                    lemma_first_on_unique(self.cur@, target, i as int);
                }
                return Some(i);
            }
            i = i + 1;
        }
        assert(!exists|i: int| is_first_on(self.cur@, target, i));
        None
    }

    /// Ends touch mode where no touch is left.
    fn settle_mode(&mut self)
        ensures
            final(self)@.cur == old(self)@.cur,
            final(self)@.touch_mode == (old(self)@.touch_mode && old(self)@.cur.len() > 0),
    {
        if self.cur.len() == 0 {
            self.touch_mode = false;
        }
    }

    /// A touch starts on element `target` at `(client_x, client_y)`;
    /// `long_tap_timer` is the timer set to fire its long tap, where setting
    /// it succeeded. A touch event (`touch_mode`) puts the tracker in touch mode.
    pub fn add(
        &mut self,
        identifier: i32,
        target: u64,
        client_x: i32,
        client_y: i32,
        touch_mode: bool,
        long_tap_timer: Option<i32>,
    )
        ensures
            final(self)@.cur == old(self)@.cur.push(
                CurrentTouch { identifier, target, client_x, client_y, long_tap_timer },
            ),
            final(self)@.touch_mode == (old(self)@.touch_mode || touch_mode),
    {
        if touch_mode {
            self.touch_mode = true;
        }
        self.cur.push(CurrentTouch { identifier, target, client_x, client_y, long_tap_timer });
    }

    /// The long tap timer of a touch fired: the touch is no longer waiting
    /// for it, and a long tap event is to be dispatched.
    pub fn trigger_long_tap(&mut self, identifier: i32) -> (r: Option<TapDispatch>)
        ensures
            final(self)@.touch_mode == old(self)@.touch_mode,
            ({
                let p = touch_pos(old(self)@.cur, identifier);
                &&& p < 0 ==> r is None && final(self)@.cur == old(self)@.cur
                &&& p >= 0 ==> {
                    let t = old(self)@.cur[p];
                    &&& r == Some(end_of(t).event)
                    &&& final(self)@.cur == old(self)@.cur.update(
                        p,
                        CurrentTouch { long_tap_timer: None, ..t },
                    )
                }
            }),
    {
        match self.find(identifier) {
            Some(i) => {
                let t = self.cur[i];
                self.cur.set(i, CurrentTouch { long_tap_timer: None, ..t });
                Some(TapDispatch { target: t.target, client_x: t.client_x, client_y: t.client_y })
            },
            None => None,
        }
    }

    /// After a long tap was dispatched: where its default was prevented, the
    /// touch ends (it gives no tap afterwards).
    pub fn end_long_tap(&mut self, identifier: i32, default_prevented: bool)
        ensures
            final(self)@.touch_mode == old(self)@.touch_mode,
            ({
                let p = touch_pos(old(self)@.cur, identifier);
                &&& (p < 0 || !default_prevented) ==> final(self)@.cur == old(self)@.cur
                &&& (p >= 0 && default_prevented) ==> final(self)@.cur == swap_removed(
                    old(self)@.cur,
                    p,
                )
            }),
    {
        if default_prevented {
            if let Some(i) = self.find(identifier) {
                let _ = self.cur.swap_remove(i);
            }
        }
    }

    /// A touch moved to `(client_x, client_y)`: where it moved too far from
    /// its start, it ends with a cancel tap.
    pub fn update(&mut self, identifier: i32, client_x: i32, client_y: i32) -> (r: Option<TouchEnd>)
        ensures
            final(self)@.touch_mode == old(self)@.touch_mode,
            ({
                let p = touch_pos(old(self)@.cur, identifier);
                &&& (p < 0 || !moved_away(old(self)@.cur[p], client_x, client_y)) ==> {
                    &&& r is None
                    &&& final(self)@.cur == old(self)@.cur
                }
                &&& (p >= 0 && moved_away(old(self)@.cur[p], client_x, client_y)) ==> {
                    &&& r == Some(end_of(old(self)@.cur[p]))
                    &&& final(self)@.cur == swap_removed(old(self)@.cur, p)
                }
            }),
    {
        match self.find(identifier) {
            Some(i) => {
                let t = self.cur[i];
                let dx: i64 = if (t.client_x as i64) >= (client_x as i64) {
                    (t.client_x as i64) - (client_x as i64)
                } else {
                    (client_x as i64) - (t.client_x as i64)
                };
                let dy: i64 = if (t.client_y as i64) >= (client_y as i64) {
                    (t.client_y as i64) - (client_y as i64)
                } else {
                    (client_y as i64) - (t.client_y as i64)
                };
                if dx > CANCEL_TAP_DIST as i64 || dy > CANCEL_TAP_DIST as i64 {
                    let _ = self.cur.swap_remove(i);
                    Some(
                        TouchEnd {
                            clear_timer: t.long_tap_timer,
                            event: TapDispatch {
                                target: t.target,
                                client_x: t.client_x,
                                client_y: t.client_y,
                            },
                        },
                    )
                } else {
                    None
                }
            },
            None => None,
        }
    }

    /// A touch ended: it ends with a tap; touch mode ends with the last touch.
    pub fn remove(&mut self, identifier: i32) -> (r: Option<TouchEnd>)
        ensures
            ({
                let p = touch_pos(old(self)@.cur, identifier);
                let cur = if p >= 0 {
                    swap_removed(old(self)@.cur, p)
                } else {
                    old(self)@.cur
                };
                &&& final(self)@.cur == cur
                &&& r == (if p >= 0 {
                    Some(end_of(old(self)@.cur[p]))
                } else {
                    None
                })
                &&& final(self)@.touch_mode == (old(self)@.touch_mode && cur.len() > 0)
            }),
    {
        let r = match self.find(identifier) {
            Some(i) => {
                let t = self.swap_remove_at(i);
                Some(
                    TouchEnd {
                        clear_timer: t.long_tap_timer,
                        event: TapDispatch {
                            target: t.target,
                            client_x: t.client_x,
                            client_y: t.client_y,
                        },
                    },
                )
            },
            None => None,
        };
        self.settle_mode();
        r
    }

    /// A touch was interrupted: it ends with no event; touch mode ends with
    /// the last touch. Returns the long tap timer to clear.
    pub fn interrupt(&mut self, identifier: i32) -> (r: Option<i32>)
        ensures
            ({
                let p = touch_pos(old(self)@.cur, identifier);
                let cur = if p >= 0 {
                    swap_removed(old(self)@.cur, p)
                } else {
                    old(self)@.cur
                };
                &&& final(self)@.cur == cur
                &&& r == (if p >= 0 {
                    old(self)@.cur[p].long_tap_timer
                } else {
                    None
                })
                &&& final(self)@.touch_mode == (old(self)@.touch_mode && cur.len() > 0)
            }),
    {
        let r = match self.find(identifier) {
            Some(i) => {
                let t = self.swap_remove_at(i);
                t.long_tap_timer
            },
            None => None,
        };
        self.settle_mode();
        r
    }

    /// The element `target` went away: the first touch on it ends with no
    /// event; touch mode ends with the last touch. Returns the long tap timer
    /// to clear.
    pub fn interrupt_by_elem(&mut self, target: u64) -> (r: Option<i32>)
        ensures
            ({
                let p = target_pos(old(self)@.cur, target);
                let cur = if p >= 0 {
                    swap_removed(old(self)@.cur, p)
                } else {
                    old(self)@.cur
                };
                &&& final(self)@.cur == cur
                &&& r == (if p >= 0 {
                    old(self)@.cur[p].long_tap_timer
                } else {
                    None
                })
                &&& final(self)@.touch_mode == (old(self)@.touch_mode && cur.len() > 0)
            }),
    {
        let r = match self.find_target(target) {
            Some(i) => {
                let t = self.swap_remove_at(i);
                t.long_tap_timer
            },
            None => None,
        };
        self.settle_mode();
        r
    }

    fn swap_remove_at(&mut self, i: usize) -> (t: CurrentTouch)
        requires
            i < old(self)@.cur.len(),
        ensures
            t == old(self)@.cur[i as int],
            final(self)@.cur == swap_removed(old(self)@.cur, i as int),
            final(self)@.touch_mode == old(self)@.touch_mode,
    {
        self.cur.swap_remove(i)
    }
}

/// A touch just added, under an identifier that no touch in progress has,
/// is the touch that this identifier ends: it ends where it started.
pub proof fn lemma_added_touch_ends(cur: Seq<CurrentTouch>, t: CurrentTouch)
    requires
        touch_pos(cur, t.identifier) == -1,
    ensures
        touch_pos(cur.push(t), t.identifier) == cur.len(),
        end_of(cur.push(t)[cur.len() as int]).event == (TapDispatch {
            target: t.target,
            client_x: t.client_x,
            client_y: t.client_y,
        }),
{
    let s = cur.push(t);
    assert forall|j: int| 0 <= j < cur.len() implies s[j].identifier != t.identifier by {
        if s[j].identifier == t.identifier {
            lemma_least_touch(cur, t.identifier, j);
        }
    }
    assert(is_first_touch(s, t.identifier, cur.len() as int));
    lemma_first_touch_unique(s, t.identifier, cur.len() as int);
}

proof fn lemma_least_touch(cur: Seq<CurrentTouch>, identifier: i32, j: int)
    requires
        0 <= j < cur.len(),
        cur[j].identifier == identifier,
    ensures
        exists|k: int| is_first_touch(cur, identifier, k),
    decreases j,
{
    if exists|k: int| 0 <= k < j && cur[k].identifier == identifier {
        let k = choose|k: int| 0 <= k < j && cur[k].identifier == identifier;
        lemma_least_touch(cur, identifier, k);
    } else {
        assert(is_first_touch(cur, identifier, j));
    }
}

/// A touch that stays within `CANCEL_TAP_DIST` of its start on both axes is
/// not moved away (it still ends with a tap).
pub proof fn lemma_small_move_keeps_tap(t: CurrentTouch, x: i32, y: i32)
    requires
        -CANCEL_TAP_DIST <= t.client_x - x <= CANCEL_TAP_DIST,
        -CANCEL_TAP_DIST <= t.client_y - y <= CANCEL_TAP_DIST,
    ensures
        !moved_away(t, x, y),
{
}

/// A touch is moved away from its start (and ends with a cancel tap rather
/// than a tap) exactly when it has gone more than `CANCEL_TAP_DIST` along
/// either axis, whatever its distance along the other one.
pub proof fn lemma_moved_away_either_axis(t: CurrentTouch, x: i32, y: i32)
    ensures
        moved_away(t, x, y) <==> (t.client_x - x > CANCEL_TAP_DIST || x - t.client_x > CANCEL_TAP_DIST
            || t.client_y - y > CANCEL_TAP_DIST || y - t.client_y > CANCEL_TAP_DIST),
        t.client_y - y > CANCEL_TAP_DIST || y - t.client_y > CANCEL_TAP_DIST ==> moved_away(t, x, y),
        t.client_x - x > CANCEL_TAP_DIST || x - t.client_x > CANCEL_TAP_DIST ==> moved_away(t, x, y),
{
}

/// A mouse button
#[derive(Debug, Clone, Copy, PartialEq, Eq, Structural)]
pub enum MouseButton {
    /// The main button, i.e. left button
    Main,
    /// The auxiliary button, i.e. middle button or wheel button
    Auxiliary,
    /// The secondary button, i.e. right button
    Secondary,
    /// The fourth button, i.e. history-back button
    Fourth,
    /// The fifth button, i.e. history-forward button
    Fifth,
    /// Other unknwon button
    Unknown(i16),
}

/// The button that a DOM `button` number stands for.
pub open spec fn button_of(code: i16) -> MouseButton {
    if code == 0 {
        MouseButton::Main
    } else if code == 1 {
        MouseButton::Auxiliary
    } else if code == 2 {
        MouseButton::Secondary
    } else if code == 3 {
        MouseButton::Fourth
    } else if code == 4 {
        MouseButton::Fifth
    } else {
        MouseButton::Unknown(code)
    }
}

/// The mouse-related event detail, with what the DOM event tells of it.
pub struct MouseEvent {
    propagation_stopped: bool,
    default_prevented: bool,
    button: i16,
    client_x: i32,
    client_y: i32,
    alt_key: bool,
    ctrl_key: bool,
    meta_key: bool,
    shift_key: bool,
}

/// The state of a mouse event.
pub struct MouseEventView {
    pub propagation_stopped: bool,
    pub default_prevented: bool,
    pub button: i16,
    pub client_x: i32,
    pub client_y: i32,
    pub alt_key: bool,
    pub ctrl_key: bool,
    pub meta_key: bool,
    pub shift_key: bool,
}

impl View for MouseEvent {
    type V = MouseEventView;

    closed spec fn view(&self) -> MouseEventView {
        MouseEventView {
            propagation_stopped: self.propagation_stopped,
            default_prevented: self.default_prevented,
            button: self.button,
            client_x: self.client_x,
            client_y: self.client_y,
            alt_key: self.alt_key,
            ctrl_key: self.ctrl_key,
            meta_key: self.meta_key,
            shift_key: self.shift_key,
        }
    }
}

impl MouseEvent {
    /// A mouse event with the DOM event's button number, position and
    /// modifier keys, not stopped nor prevented.
    pub fn new(
        button: i16,
        client_x: i32,
        client_y: i32,
        alt_key: bool,
        ctrl_key: bool,
        meta_key: bool,
        shift_key: bool,
    ) -> (r: Self)
        ensures
            r@ == (MouseEventView {
                propagation_stopped: false,
                default_prevented: false,
                button,
                client_x,
                client_y,
                alt_key,
                ctrl_key,
                meta_key,
                shift_key,
            }),
    {
        MouseEvent {
            propagation_stopped: false,
            default_prevented: false,
            button,
            client_x,
            client_y,
            alt_key,
            ctrl_key,
            meta_key,
            shift_key,
        }
    }

    /// Get the button that triggers `mouse_down` or `mouse_up`
    pub fn button(&self) -> (r: MouseButton)
        ensures
            r == button_of(self@.button),
    {
        match self.button {
            0 => MouseButton::Main,
            1 => MouseButton::Auxiliary,
            2 => MouseButton::Secondary,
            3 => MouseButton::Fourth,
            4 => MouseButton::Fifth,
            x => MouseButton::Unknown(x),
        }
    }

    /// Check whether keyboard alt key is pressed
    pub fn alt_key(&self) -> (r: bool)
        ensures
            r == self@.alt_key,
    {
        self.alt_key
    }

    /// Check whether keyboard ctrl key is pressed
    pub fn ctrl_key(&self) -> (r: bool)
        ensures
            r == self@.ctrl_key,
    {
        self.ctrl_key
    }

    /// Check whether keyboard meta key is pressed
    pub fn meta_key(&self) -> (r: bool)
        ensures
            r == self@.meta_key,
    {
        self.meta_key
    }

    /// Check whether keyboard shift key is pressed
    pub fn shift_key(&self) -> (r: bool)
        ensures
            r == self@.shift_key,
    {
        self.shift_key
    }

    /// Get the x-position reletive to the viewport
    pub fn client_x(&self) -> (r: i32)
        ensures
            r == self@.client_x,
    {
        self.client_x
    }

    /// Get the y-position reletive to the viewport
    pub fn client_y(&self) -> (r: i32)
        ensures
            r == self@.client_y,
    {
        self.client_y
    }

    /// Stops the propagation; returns whether it was not stopped yet, that
    /// is whether the DOM event is to be stopped now.
    pub fn stop_propagation(&mut self) -> (first: bool)
        ensures
            first == !old(self)@.propagation_stopped,
            final(self)@ == (MouseEventView { propagation_stopped: true, ..old(self)@ }),
    {
        if self.propagation_stopped {
            return false;
        }
        self.propagation_stopped = true;
        true
    }

    pub fn propagation_stopped(&self) -> (r: bool)
        ensures
            r == self@.propagation_stopped,
    {
        self.propagation_stopped
    }

    /// Prevents the default action; returns whether it was not prevented
    /// yet, that is whether the DOM event is to be prevented now.
    pub fn prevent_default(&mut self) -> (first: bool)
        ensures
            first == !old(self)@.default_prevented,
            final(self)@ == (MouseEventView { default_prevented: true, ..old(self)@ }),
    {
        if self.default_prevented {
            return false;
        }
        self.default_prevented = true;
        true
    }

    pub fn default_prevented(&self) -> (r: bool)
        ensures
            r == self@.default_prevented,
    {
        self.default_prevented
    }
}

} // verus!
