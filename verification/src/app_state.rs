//! The focus of a screen by the identity of the inputs: which input has the
//! focus, the order of the inputs, and where each stands among the nodes.

use crate::node::Node;
use crate::view_state::same_text;
use vstd::prelude::*;

verus! {

/// What the state holds: the identity of the focused input, the identities
/// of the inputs in order, and for each the index of its node.
pub struct AppStateView {
    pub focused: Option<Seq<char>>,
    pub order: Seq<Seq<char>>,
    pub places: Seq<usize>,
}

/// The position of the first of the identities that equals `id`, or their
/// number where none does.
pub open spec fn first_place(order: Seq<Seq<char>>, id: Seq<char>) -> int
    decreases order.len(),
{
    if order.len() == 0 {
        0
    } else if order[0] == id {
        0
    } else {
        1 + first_place(order.drop_first(), id)
    }
}

/// The position of the last of the identities that equals `id`, or -1
/// where none does.
pub open spec fn last_place(order: Seq<Seq<char>>, id: Seq<char>) -> int
    decreases order.len(),
{
    if order.len() == 0 {
        -1
    } else if order.last() == id {
        order.len() - 1
    } else {
        last_place(order.drop_last(), id)
    }
}

/// The position from which the focus moves: that of the focused input, or
/// the first position where the focused input is not among the inputs.
pub open spec fn current_place(order: Seq<Seq<char>>, id: Seq<char>) -> int {
    if first_place(order, id) < order.len() {
        first_place(order, id)
    } else {
        0
    }
}

/// The identity that has the focus after a move to the next input, around
/// the end.
pub open spec fn next_focus(v: AppStateView) -> Option<Seq<char>> {
    if v.order.len() == 0 {
        None
    } else {
        match v.focused {
            None => Some(v.order[0]),
            Some(current) => Some(
                v.order[(current_place(v.order, current) + 1) % (v.order.len() as int)],
            ),
        }
    }
}

/// The identity that has the focus after a move to the input before, around
/// the start.
pub open spec fn prev_focus(v: AppStateView) -> Option<Seq<char>> {
    if v.order.len() == 0 {
        None
    } else {
        match v.focused {
            None => Some(v.order[0]),
            Some(current) => Some(
                v.order[if current_place(v.order, current) == 0 {
                    v.order.len() - 1
                } else {
                    current_place(v.order, current) - 1
                }],
            ),
        }
    }
}

/// The identities of the inputs among the nodes, in order.
pub open spec fn input_ids_of(nodes: Seq<Node>) -> Seq<Seq<char>>
    decreases nodes.len(),
{
    if nodes.len() == 0 {
        Seq::empty()
    } else {
        match nodes.last() {
            Node::Input(field) => input_ids_of(nodes.drop_last()).push(field.spec_id()),
            Node::Text(_) => input_ids_of(nodes.drop_last()),
        }
    }
}

/// The indices of the inputs among the nodes, in order.
pub open spec fn input_places_of(nodes: Seq<Node>) -> Seq<usize>
    decreases nodes.len(),
{
    if nodes.len() == 0 {
        Seq::empty()
    } else {
        match nodes.last() {
            Node::Input(_) => input_places_of(nodes.drop_last()).push((nodes.len() - 1) as usize),
            Node::Text(_) => input_places_of(nodes.drop_last()),
        }
    }
}

/// The first place of an identity is a position among the identities or
/// just behind them.
pub proof fn lemma_first_place(order: Seq<Seq<char>>, id: Seq<char>)
    ensures
        0 <= first_place(order, id) <= order.len(),
        first_place(order, id) < order.len() ==> order[first_place(order, id)] == id,
        first_place(order, id) == order.len() ==> !order.contains(id),
    decreases order.len(),
{
    if order.len() > 0 && order[0] != id {
        lemma_first_place(order.drop_first(), id);
        if first_place(order, id) == order.len() {
            assert forall|i: int| 0 <= i < order.len() implies order[i] != id by {
                if i > 0 {
                    assert(order.drop_first()[i - 1] == order[i]);
                }
            }
        }
    }
}

/// The last place of an identity is a position among the identities or -1.
pub proof fn lemma_last_place(order: Seq<Seq<char>>, id: Seq<char>)
    ensures
        -1 <= last_place(order, id) < order.len(),
        last_place(order, id) >= 0 ==> order[last_place(order, id)] == id,
        last_place(order, id) >= 0 <==> order.contains(id),
    decreases order.len(),
{
    if order.len() > 0 {
        if order.last() != id {
            lemma_last_place(order.drop_last(), id);
            if order.contains(id) {
                let i = choose|i: int| 0 <= i < order.len() && order[i] == id;
                assert(order.drop_last()[i] == id);
            }
            if last_place(order, id) >= 0 {
                assert(order[last_place(order, id)] == order.drop_last()[last_place(order, id)]);
            }
        } else {
            assert(order[order.len() - 1] == id);
        }
    }
}

/// The focus of a screen by identity.
#[derive(Debug)]
pub struct AppState {
    focused: Option<String>,
    input_order: Vec<String>,
    input_index: Vec<usize>,
}

impl View for AppState {
    type V = AppStateView;

    closed spec fn view(&self) -> AppStateView {
        AppStateView {
            focused: crate::event::optional_text(self.focused),
            order: self.input_order@.map_values(|s: String| s@),
            places: self.input_index@,
        }
    }
}

impl AppState {
    /// A state without inputs.
    pub fn new() -> (r: Self)
        ensures
            r@ == (AppStateView { focused: None, order: Seq::empty(), places: Seq::empty() }),
    {
        let r = AppState { focused: None, input_order: Vec::new(), input_index: Vec::new() };
        assert(r@.order =~= Seq::empty());
        r
    }

    /// The state of a screen: its inputs in order, the first of them
    /// focused.
    pub fn from_step(step: &[Node]) -> (r: Self)
        ensures
            r@.order == input_ids_of(step@),
            r@.places == input_places_of(step@),
            r@.focused == if input_ids_of(step@).len() > 0 {
                Some(input_ids_of(step@)[0])
            } else {
                None
            },
    {
        let mut order: Vec<String> = Vec::new();
        let mut places: Vec<usize> = Vec::new();
        let mut i: usize = 0;
        let ghost view = |s: String| s@;
        proof {
            assert(step@.take(0) =~= Seq::<Node>::empty());
            assert(order@.map_values(view) =~= Seq::<Seq<char>>::empty());
        }
        while i < step.len()
            invariant
                i <= step.len(),
                view == |s: String| s@,
                order@.map_values(view) == input_ids_of(step@.take(i as int)),
                places@ == input_places_of(step@.take(i as int)),
            decreases step.len() - i,
        {
            proof {
                assert(step@.take(i + 1).drop_last() =~= step@.take(i as int));
                assert(step@.take(i + 1).last() == step@[i as int]);
            }
            match &step[i] {
                Node::Input(field) => {
                    let ghost before = order@.map_values(view);
                    let id = String::from_str(field.id());
                    order.push(id);
                    places.push(i);
                    assert(order@.map_values(view) =~= before.push(field.spec_id()));
                },
                Node::Text(_) => {},
            }
            i += 1;
        }
        assert(step@.take(i as int) =~= step@);
        let focused = if order.len() > 0 {
            Some(order[0].clone())
        } else {
            None
        };
        AppState { focused, input_order: order, input_index: places }
    }

    /// The identity of the focused input.
    pub fn focused(&self) -> (r: Option<&String>)
        ensures
            r is Some == self@.focused is Some,
            r matches Some(id) ==> Some(id@) == self@.focused,
    {
        self.focused.as_ref()
    }

    /// The position of the last input with the identity.
    fn find_last(&self, id: &str) -> (r: Option<usize>)
        ensures
            r is Some <==> last_place(self@.order, id@) >= 0,
            r matches Some(p) ==> p == last_place(self@.order, id@) && p < self@.order.len(),
    {
        let mut i: usize = self.input_order.len();
        let ghost order = self@.order;
        proof {
            assert(order.take(i as int) =~= order);
            lemma_last_place(order, id@);
        }
        while i > 0
            invariant
                i <= self.input_order.len(),
                order == self@.order,
                last_place(order, id@) == last_place(order.take(i as int), id@),
            decreases i,
        {
            proof {
                assert(order.take(i as int).drop_last() =~= order.take(i - 1));
                assert(order.take(i as int).last() == order[i - 1]);
            }
            if same_text(self.input_order[i - 1].as_str(), id) {
                return Some(i - 1);
            }
            i -= 1;
        }
        None
    }

    /// The position of the first input with the identity.
    fn find_first(&self, id: &str) -> (r: usize)
        ensures
            r == first_place(self@.order, id@),
            r <= self@.order.len(),
    {
        let mut i: usize = 0;
        let ghost order = self@.order;
        proof {
            assert(order.skip(0) =~= order);
            lemma_first_place(order, id@);
        }
        while i < self.input_order.len()
            invariant
                i <= self.input_order.len(),
                order == self@.order,
                first_place(order, id@) == i + first_place(order.skip(i as int), id@),
            decreases self.input_order.len() - i,
        {
            proof {
                assert(order.skip(i as int)[0] == order[i as int]);
                assert(order.skip(i as int).drop_first() =~= order.skip(i + 1));
            }
            if same_text(self.input_order[i].as_str(), id) {
                return i;
            }
            i += 1;
        }
        i
    }

    /// The index of the node of the input with the identity: of the last
    /// such input, where several have it.
    pub fn index_of(&self, id: &str) -> (r: Option<usize>)
        ensures
            r is Some <==> last_place(self@.order, id@) >= 0 && last_place(self@.order, id@)
                < self@.places.len(),
            r matches Some(index) ==> index == self@.places[last_place(self@.order, id@)],
    {
        match self.find_last(id) {
            Some(p) => {
                if p < self.input_index.len() {
                    Some(self.input_index[p])
                } else {
                    None
                }
            },
            None => None,
        }
    }

    /// The index of the node of the focused input.
    pub fn focused_index(&self) -> (r: Option<usize>)
        ensures
            self@.focused is None ==> r is None,
            self@.focused matches Some(id) ==> (r is Some <==> last_place(self@.order, id) >= 0
                && last_place(self@.order, id) < self@.places.len()),
            self@.focused matches Some(id) ==> (r matches Some(index) ==> index
                == self@.places[last_place(self@.order, id)]),
    {
        match &self.focused {
            Some(id) => self.index_of(id.as_str()),
            None => None,
        }
    }

    /// Moves the focus to the next input, around the end.
    pub fn focus_next(&mut self)
        ensures
            final(self)@ == (AppStateView { focused: next_focus(old(self)@), ..old(self)@ }),
    {
        let n = self.input_order.len();
        if n == 0 {
            self.focused = None;
            return ;
        }
        let next: usize = match &self.focused {
            None => 0,
            Some(current) => {
                let found = self.find_first(current.as_str());
                let pos: usize = if found < n {
                    found
                } else {
                    0
                };
                if pos + 1 == n {
                    proof {
                        vstd::arithmetic::div_mod::lemma_mod_self_0(n as int);
                    }
                    0
                } else {
                    proof {
                        vstd::arithmetic::div_mod::lemma_small_mod((pos + 1) as nat, n as nat);
                    }
                    pos + 1
                }
            },
        };
        self.focused = Some(self.input_order[next].clone());
    }

    /// Moves the focus to the input before, around the start.
    pub fn focus_prev(&mut self)
        ensures
            final(self)@ == (AppStateView { focused: prev_focus(old(self)@), ..old(self)@ }),
    {
        let n = self.input_order.len();
        if n == 0 {
            self.focused = None;
            return ;
        }
        let prev: usize = match &self.focused {
            None => 0,
            Some(current) => {
                let found = self.find_first(current.as_str());
                let pos: usize = if found < n {
                    found
                } else {
                    0
                };
                if pos == 0 {
                    n - 1
                } else {
                    pos - 1
                }
            },
        };
        self.focused = Some(self.input_order[prev].clone());
    }

    /// Puts the focus on the input with the identity, where there is one.
    pub fn focus(&mut self, id: &str)
        ensures
            final(self)@ == (AppStateView {
                focused: if old(self)@.order.contains(id@) {
                    Some(id@)
                } else {
                    old(self)@.focused
                },
                ..old(self)@
            }),
    {
        proof {
            lemma_last_place(self@.order, id@);
        }
        match self.find_last(id) {
            Some(_) => {
                self.focused = Some(String::from_str(id));
            },
            None => {},
        }
    }

    /// Whether the input with the identity has the focus.
    pub fn is_focused(&self, id: &str) -> (r: bool)
        ensures
            r == (self@.focused == Some(id@)),
    {
        match &self.focused {
            Some(current) => same_text(current.as_str(), id),
            None => false,
        }
    }

    /// The identities of the inputs, in order.
    pub fn input_ids(&self) -> (r: &[String])
        ensures
            r@.map_values(|s: String| s@) == self@.order,
    {
        self.input_order.as_slice()
    }
}

impl Default for AppState {
    fn default() -> (r: Self)
        ensures
            r@ == (AppStateView { focused: None, order: Seq::empty(), places: Seq::empty() }),
    {
        AppState::new()
    }
}

} // verus!
