use std::collections::HashMap;

use vstd::prelude::*;
use vstd::std_specs::iter::IteratorSpec;

use crate::agent::{copy_actions, turn_calls, Action, Done, LearningAgent, Value};
use crate::grid::{lists_map, Color, Grid, GridSize};
use crate::position::{
    cell_key, cell_of, key_cell, key_of, lemma_cell_key_injective, lemma_cell_key_onto, Position,
};
use crate::random::random_below;

verus! {

broadcast use vstd::std_specs::hash::group_hash_axioms;

/// The persistent elements that a hash index keyed by `cell_key` holds.
pub open spec fn index_elements(index: Map<u64, Color>) -> Map<Position, Color> {
    Map::new(|p: Position| index.contains_key(cell_key(p)), |p: Position| index[cell_key(p)])
}

/// The elements after relocating the one at `current` to `new`: nothing
/// changes if `current` is empty, else it leaves `current` and overwrites
/// whatever stood at `new`.
pub open spec fn moved_elements(
    m: Map<Position, Color>,
    current: Position,
    new: Position,
) -> Map<Position, Color> {
    if m.contains_key(current) {
        m.remove(current).insert(new, m[current])
    } else {
        m
    }
}

/// The elements that entering `list` in order gives: where two entries share
/// a position, the later one stays.
pub open spec fn entered(list: Seq<(Position, Color)>) -> Map<Position, Color>
    decreases list.len(),
{
    if list.len() == 0 {
        Map::empty()
    } else {
        entered(list.drop_last()).insert(list.last().0, list.last().1)
    }
}

/// Whether `p` lies on a grid of `size`.
pub open spec fn in_bounds(size: GridSize, p: Position) -> bool {
    0 <= p.x < size.width && 0 <= p.y < size.height
}

/// Moving the element of an occupied cell to an empty cell leaves the first
/// cell empty and the second holding the same colour; no other cell changes.
pub proof fn lemma_move_to_empty(m: Map<Position, Color>, a: Position, b: Position)
    requires
        m.contains_key(a),
        !m.contains_key(b),
    ensures
        !moved_elements(m, a, b).contains_key(a),
        moved_elements(m, a, b).contains_key(b),
        moved_elements(m, a, b)[b] == m[a],
        forall|q: Position|
            q != a && q != b ==> (#[trigger] moved_elements(m, a, b).contains_key(q)
                == m.contains_key(q) && (m.contains_key(q) ==> moved_elements(m, a, b)[q]
                == m[q])),
{
}

/// Moving from an empty cell changes nothing.
pub proof fn lemma_move_from_empty(m: Map<Position, Color>, a: Position, b: Position)
    requires
        !m.contains_key(a),
    ensures
        moved_elements(m, a, b) == m,
{
}

/// Putting a colour on an occupied cell replaces the one there: the cell
/// holds the last colour put on it and the earlier one is gone.
pub proof fn lemma_insert_last_wins(m: Map<Position, Color>, p: Position, c1: Color, c2: Color)
    ensures
        m.insert(p, c1).insert(p, c2) == m.insert(p, c2),
        m.insert(p, c1).insert(p, c2)[p] == c2,
        m.insert(p, c1).insert(p, c2).dom() == m.dom().insert(p),
{
    assert(m.insert(p, c1).insert(p, c2) =~= m.insert(p, c2));
}

/// The drawn copy of a well-formed environment lists each cell at most once.
pub proof fn lemma_drawn_unique(e: Env, i: int, j: int)
    requires
        e.wf(),
        0 <= i < j < e.drawn_elements().len(),
    ensures
        e.drawn_elements()[i].0 != e.drawn_elements()[j].0,
{
}

proof fn lemma_index_insert(index: Map<u64, Color>, p: Position, c: Color)
    ensures
        index_elements(index.insert(cell_key(p), c)) == index_elements(index).insert(p, c),
{
    assert forall|q: Position| #[trigger] index_elements(index.insert(cell_key(p), c)).contains_key(q)
        == index_elements(index).insert(p, c).contains_key(q) by {
        lemma_cell_key_injective(p, q);
    }
    assert forall|q: Position| index_elements(index.insert(cell_key(p), c)).contains_key(q) implies
        #[trigger] index_elements(index.insert(cell_key(p), c))[q] == index_elements(index).insert(
        p,
        c,
    )[q] by {
        lemma_cell_key_injective(p, q);
    }
    assert(index_elements(index.insert(cell_key(p), c)) =~= index_elements(index).insert(p, c));
}

proof fn lemma_index_remove(index: Map<u64, Color>, p: Position)
    ensures
        index_elements(index.remove(cell_key(p))) == index_elements(index).remove(p),
{
    assert forall|q: Position| #[trigger] index_elements(index.remove(cell_key(p))).contains_key(q)
        == index_elements(index).remove(p).contains_key(q) by {
        lemma_cell_key_injective(p, q);
    }
    assert(index_elements(index.remove(cell_key(p))) =~= index_elements(index).remove(p));
}

/// The environment: the grid, the actions offered to agents, the index of
/// persistent elements, and constants stored for agents to read.
pub struct Env {
    grid: Grid,
    pub actions: Vec<Action>,
    /// Elements with a lasting position (walls, the goal cell, ...), keyed by
    /// `cell_key` so that an agent can test a cell in constant time.
    persistent_elements: HashMap<u64, Color>,
    pub data: HashMap<u32, Value>,
}

impl Env {
    /// The persistent elements, by position.
    pub closed spec fn elements(&self) -> Map<Position, Color> {
        index_elements(self.persistent_elements@)
    }

    /// The actions offered to agents.
    pub closed spec fn action_set(&self) -> Seq<Action> {
        self.actions@
    }

    /// The constants stored for agents.
    pub closed spec fn constants(&self) -> Map<u32, Value> {
        self.data@
    }

    pub closed spec fn size(&self) -> GridSize {
        self.grid.size
    }

    pub closed spec fn start(&self) -> Position {
        self.grid.start
    }

    pub closed spec fn end(&self) -> Position {
        self.grid.end
    }

    /// The copy of the persistent elements that is drawn.
    pub closed spec fn drawn_elements(&self) -> Seq<(Position, Color)> {
        self.grid.elements()
    }

    /// The drawn copy agrees with the index.
    pub open spec fn wf(&self) -> bool {
        lists_map(self.drawn_elements(), self.elements())
    }

    /// Lists the entries of the index, in the order the map yields them.
    fn element_list(index: &HashMap<u64, Color>) -> (r: Vec<(Position, Color)>)
        ensures
            lists_map(r@, index_elements(index@)),
    {
        let mut out: Vec<(Position, Color)> = Vec::new();
        let ghost v = index.iter().remaining();
        for (k, c) in it: index.iter()
            invariant
                out@.len() == it.index(),
                it.seq() == v,
                forall|j: int|
                    0 <= j < out@.len() ==> #[trigger] out@[j] == (key_cell(*v[j].0), *v[j].1),
        {
            out.push((cell_of(*k), *c));
        }
        proof {
            broadcast use vstd::std_specs::hash::axiom_spec_hash_map_iter;

            assert(out@.len() == v.len());
            let m = index_elements(index@);
            assert forall|i: int| 0 <= i < out@.len() implies #[trigger] m.contains_key(
                out@[i].0,
            ) && m[out@[i].0] == out@[i].1 by {
                lemma_cell_key_onto(*v[i].0);
                assert(index@.contains_key(*v[i].0));
            }
            assert forall|p: Position| #[trigger] m.contains_key(p) implies exists|i: int|
                0 <= i < out@.len() && #[trigger] out@[i].0 == p by {
                let k = cell_key(p);
                assert(index@.contains_key(k));
                assert(v.contains((&k, &index@[k])));
                let i = choose|i: int| 0 <= i < v.len() && v[i] == (&k, &index@[k]);
                crate::position::lemma_key_cell_inverse(p);
                assert(out@[i].0 == p);
            }
            assert forall|i: int, j: int| 0 <= i < j < out@.len() implies #[trigger] out@[i].0
                != #[trigger] out@[j].0 by {
                if out@[i].0 == out@[j].0 {
                    lemma_cell_key_onto(*v[i].0);
                    lemma_cell_key_onto(*v[j].0);
                    assert(index@.contains_key(*v[i].0));
                    assert(index@.contains_key(*v[j].0));
                    assert(v[i] == v[j]);
                    assert(v.no_duplicates());
                }
            }
        }
        out
    }

    /// Builds an environment. Elements are entered in the order given; where
    /// two share a position, the later one stays.
    pub fn new(
        start: Position,
        end: Position,
        size: GridSize,
        persistent_elements: Vec<(Position, Color)>,
        actions: &[Action],
        data: HashMap<u32, Value>,
    ) -> (e: Env)
        ensures
            e.wf(),
            e.size() == size,
            e.start() == start,
            e.end() == end,
            e.elements() == entered(persistent_elements@),
            e.action_set() == actions@,
            e.constants() == data@,
    {
        let mut index: HashMap<u64, Color> = HashMap::new();
        let mut i: usize = 0;
        while i < persistent_elements.len()
            invariant
                i <= persistent_elements@.len(),
                index_elements(index@) == entered(persistent_elements@.take(i as int)),
            decreases persistent_elements@.len() - i,
        {
            let (p, c) = persistent_elements[i];
            let ghost before = index@;
            index.insert(key_of(p), c);
            proof {
                let s = persistent_elements@.take(i as int + 1);
                assert(s.drop_last() == persistent_elements@.take(i as int));
                lemma_index_insert(before, p, c);
            }
            i = i + 1;
        }
        assert(persistent_elements@.take(persistent_elements@.len() as int)
            == persistent_elements@);
        let action_set = copy_actions(actions);
        let list = Self::element_list(&index);
        Env {
            grid: Grid::new(start, end, size, list),
            actions: action_set,
            persistent_elements: index,
            data,
        }
    }

    /// Refreshes the drawn copy from the index.
    fn sync_grid(&mut self)
        ensures
            final(self).wf(),
            final(self).elements() == old(self).elements(),
            final(self).size() == old(self).size(),
            final(self).start() == old(self).start(),
            final(self).end() == old(self).end(),
            final(self).action_set() == old(self).action_set(),
            final(self).constants() == old(self).constants(),
    {
        let list = Self::element_list(&self.persistent_elements);
        self.grid.update_persistent_element(list);
    }

    pub fn get_width(&self) -> (r: &usize)
        ensures
            *r == self.size().width,
    {
        &self.grid.size.width
    }

    pub fn get_heigth(&self) -> (r: &usize)
        ensures
            *r == self.size().height,
    {
        &self.grid.size.height
    }

    /// The grid, for drawing.
    pub fn grid(&self) -> (r: &Grid)
        ensures
            r.size == self.size(),
            r.start == self.start(),
            r.end == self.end(),
            r.elements() == self.drawn_elements(),
    {
        &self.grid
    }

    /// Whether `position` lies on the grid.
    pub fn valid_position(&self, position: Position) -> (r: bool)
        ensures
            r == in_bounds(self.size(), position),
            r == (0 <= position.x < self.size().width && 0 <= position.y < self.size().height),
    {
        position.x >= 0 && (position.x as usize) < self.grid.size.width && position.y >= 0
            && (position.y as usize) < self.grid.size.height
    }

    /// A position drawn at random on the grid; each coordinate is drawn
    /// uniformly from its range.
    pub fn get_random_position(&self) -> (r: Position)
        requires
            0 < self.size().width <= i32::MAX,
            0 < self.size().height <= i32::MAX,
        ensures
            in_bounds(self.size(), r),
    {
        Position {
            x: random_below(*self.get_width() as i32),
            y: random_below(*self.get_heigth() as i32),
        }
    }

    /// Whether a persistent element stands at `position`.
    pub fn contains_persistent_element(&self, position: Position) -> (r: bool)
        ensures
            r == self.elements().contains_key(position),
    {
        self.persistent_elements.contains_key(&key_of(position))
    }

    /// The persistent element at `position`, if any.
    pub fn get_persistent_element(&self, position: Position) -> (r: Option<Color>)
        ensures
            r == (if self.elements().contains_key(position) {
                Some(self.elements()[position])
            } else {
                None
            }),
    {
        match self.persistent_elements.get(&key_of(position)) {
            Some(c) => Some(*c),
            None => None,
        }
    }

    /// Puts `color` at `position`, replacing what stood there; returns what
    /// was replaced. The position is not checked against the grid.
    pub fn insert_persistent_element(&mut self, position: Position, color: Color) -> (r: Option<
        Color,
    >)
        ensures
            final(self).wf(),
            final(self).elements() == old(self).elements().insert(position, color),
            r == (if old(self).elements().contains_key(position) {
                Some(old(self).elements()[position])
            } else {
                None
            }),
            final(self).size() == old(self).size(),
            final(self).start() == old(self).start(),
            final(self).end() == old(self).end(),
            final(self).action_set() == old(self).action_set(),
            final(self).constants() == old(self).constants(),
    {
        proof {
            lemma_index_insert(self.persistent_elements@, position, color);
        }
        let r = self.persistent_elements.insert(key_of(position), color);
        self.sync_grid();
        r
    }

    /// Takes away the element at `position`, if any, and returns it.
    pub fn remove_persistent_element(&mut self, position: Position) -> (r: Option<Color>)
        ensures
            final(self).wf(),
            final(self).elements() == old(self).elements().remove(position),
            r == (if old(self).elements().contains_key(position) {
                Some(old(self).elements()[position])
            } else {
                None
            }),
            final(self).size() == old(self).size(),
            final(self).start() == old(self).start(),
            final(self).end() == old(self).end(),
            final(self).action_set() == old(self).action_set(),
            final(self).constants() == old(self).constants(),
    {
        proof {
            lemma_index_remove(self.persistent_elements@, position);
        }
        let r = self.persistent_elements.remove(&key_of(position));
        self.sync_grid();
        r
    }

    /// Moves the element at `current_position` to `new_position`,
    /// overwriting what stood there. Nothing happens when no element stands
    /// at `current_position`.
    pub fn move_persistent_element(&mut self, current_position: Position, new_position: Position)
        requires
            old(self).wf(),
        ensures
            final(self).wf(),
            final(self).elements() == moved_elements(
                old(self).elements(),
                current_position,
                new_position,
            ),
            final(self).size() == old(self).size(),
            final(self).start() == old(self).start(),
            final(self).end() == old(self).end(),
            final(self).action_set() == old(self).action_set(),
            final(self).constants() == old(self).constants(),
    {
        let ghost before = self.persistent_elements@;
        proof {
            lemma_index_remove(before, current_position);
        }
        if let Some(element) = self.persistent_elements.remove(&key_of(current_position)) {
            proof {
                lemma_index_insert(before.remove(cell_key(current_position)), new_position, element);
            }
            self.persistent_elements.insert(key_of(new_position), element);
            self.sync_grid();
        } else {
            assert(self.persistent_elements@ =~= before);
        }
    }

    /// Runs one turn of `agent` from `position`: it chooses one of the
    /// actions, computes the transition, learns from the reward and takes
    /// the next state. Returns the new position and whether the episode is
    /// over, as the agent computed them; the environment itself is left as
    /// it was.
    pub fn step<A: LearningAgent>(&mut self, position: Position, agent: &mut A) -> (r: (
        Position,
        Done,
    ))
        ensures
            *final(self) == *old(self),
            final(agent).calls().len() == old(agent).calls().len() + 4,
            final(agent).calls().take(old(agent).calls().len() as int) == old(agent).calls(),
            exists|action: Action, t: (Position, Value, i64, Done)|
                {
                    &&& #[trigger] turn_calls(
                        old(agent).current_state(),
                        old(self).action_set(),
                        position,
                        action,
                        t,
                    ) == final(agent).calls().skip(old(agent).calls().len() as int)
                    &&& r == (t.0, t.3)
                    &&& final(agent).current_state() == t.1
                },
    {
        let ghost calls0 = agent.calls();
        let current = agent.state();
        let action = agent.choose_action(&current, &self.actions);
        let (new_position, next_state, reward, done) = agent.step(
            self,
            position,
            &current,
            &action,
        );
        let state = agent.state();
        agent.update(&state, &action, reward, &next_state, &self.actions);
        agent.update_state(next_state);
        proof {
            let t = (new_position, next_state, reward, done);
            let n = calls0.len() as int;
            assert(agent.calls().take(n) =~= calls0);
            assert(agent.calls().skip(n) =~= turn_calls(current, self.action_set(), position, action, t));
            assert(turn_calls(current, self.action_set(), position, action, t) == agent.calls().skip(n));
        }
        (new_position, done)
    }
}

} // verus!
