use vstd::prelude::*;
use rand::Rng;

use crate::player::{Player, after_shot, after_move};

verus! {

/// How often hazard placement draws a random room before it takes the first
/// free room in order instead.
pub const MAX_DRAWS: usize = 64;

/// How many times bats may carry the player off in one move before they
/// drop the player in the start room, which never holds a hazard.
pub const MAX_BAT_FLIGHTS: usize = 64;

/// Relies on rand's `Rng::gen_range` on the thread-local generator: for
/// `low < high` it returns a value in `[low, high)` (it panics otherwise).
#[verifier::external_body]
fn random_room(low: usize, high: usize) -> (r: usize)
    requires
        low < high,
    ensures
        low <= r < high,
{
    rand::thread_rng().gen_range(low, high)
}

/// Relies on rand's `Rng::gen::<bool>` on the thread-local generator: a fair
/// coin, of which nothing is known in advance.
#[verifier::external_body]
fn coin_flip() -> (r: bool) {
    rand::thread_rng().gen::<bool>()
}

/// The hazard that a coin puts into a room: heads a pitfall, tails bats.
pub open spec fn coin_hazard(coin: bool) -> Hazard {
    if coin {
        Hazard::Pitfall
    } else {
        Hazard::Bats
    }
}

/// The hazard that the coin `coin` picks.
fn hazard_for(coin: bool) -> (h: Hazard)
    ensures
        h == coin_hazard(coin),
{
    if coin {
        Hazard::Pitfall
    } else {
        Hazard::Bats
    }
}

/// What can occupy a room.
#[derive(Debug, Clone, Copy, PartialEq, Eq, Structural, Hash)]
pub enum Hazard {
    Wumpus,
    Bats,
    Pitfall,
}

/// Why a cave could not be built.
#[derive(Debug, Clone, Copy, PartialEq, Eq, Structural)]
pub enum ConfigError {
    TooFewRooms,
    TooManyHazards,
}

impl ConfigError {
    /// A sentence that tells the user what went wrong.
    pub fn message(&self) -> (r: String)
        ensures
            *self == ConfigError::TooFewRooms ==> r@ == "too few rooms to make cave"@,
            *self == ConfigError::TooManyHazards ==> r@ == "too many hazards for the number of rooms"@,
    {
        match self {
            ConfigError::TooFewRooms => String::from_str("too few rooms to make cave"),
            ConfigError::TooManyHazards => String::from_str("too many hazards for the number of rooms"),
        }
    }
}

/// A room: three tunnels out, and at most one hazard.
#[derive(Debug, Clone, Copy)]
pub struct Room {
    pub adjacent: [usize; 3],
    pub hazard: Option<Hazard>,
}

/// `(a + b) mod n`, for the tunnel layout.
pub open spec fn tunnel(a: int, b: int, n: int) -> usize {
    ((a + b) % n) as usize
}

/// The three rooms that room `i` of an `n`-room cave leads to.
pub open spec fn neighbors(i: int, n: int) -> Seq<usize> {
    seq![tunnel(i, 1, n), tunnel(i, 1 + n / 4, n), tunnel(i, 1 + 3 * n / 4, n)]
}

/// The number of rooms of `s` that hold a hazard.
pub open spec fn hazard_count(s: Seq<Room>) -> nat
    decreases s.len(),
{
    if s.len() == 0 {
        0
    } else {
        hazard_count(s.drop_last()) + if s.last().hazard is Some { 1nat } else { 0nat }
    }
}

/// Room `w` holds the wumpus, and no other room of `s` does.
pub open spec fn only_wumpus_at(s: Seq<Room>, w: int) -> bool {
    &&& 0 <= w < s.len()
    &&& s[w].hazard == Some(Hazard::Wumpus)
    &&& forall|i: int| 0 <= i < s.len() && i != w ==> s[i].hazard != Some(Hazard::Wumpus)
}

/// The rooms of an `n`-room cave, with the tunnels laid out as `neighbors` says.
pub open spec fn laid_out(s: Seq<Room>, n: int) -> bool {
    &&& s.len() == n
    &&& forall|i: int| 0 <= i < n ==> (#[trigger] s[i]).adjacent@ == neighbors(i, n)
}

/// Putting a hazard into a free room adds one to the count.
proof fn lemma_count_place(s: Seq<Room>, i: int, r: Room)
    requires
        0 <= i < s.len(),
        s[i].hazard is None,
        r.hazard is Some,
    ensures
        hazard_count(s.update(i, r)) == hazard_count(s) + 1,
    decreases s.len(),
{
    let t = s.update(i, r);
    if i == s.len() - 1 {
        assert(t.drop_last() =~= s.drop_last());
    } else {
        assert(t.drop_last() =~= s.drop_last().update(i, r));
        lemma_count_place(s.drop_last(), i, r);
    }
}

/// When every room but the first holds a hazard, so many are counted.
proof fn lemma_count_full(s: Seq<Room>)
    requires
        s.len() >= 1,
        forall|i: int| 1 <= i < s.len() ==> (#[trigger] s[i]).hazard is Some,
    ensures
        hazard_count(s) >= s.len() - 1,
    decreases s.len(),
{
    if s.len() > 1 {
        lemma_count_full(s.drop_last());
    }
}

/// `(a + b) % n` without overflow, for `a, b < n`.
fn add_mod(a: usize, b: usize, n: usize) -> (r: usize)
    requires
        a < n,
        b < n,
    ensures
        r as int == (a + b) % (n as int),
{
    if a >= n - b {
        let r = a - (n - b);
        assert((a + b) % (n as int) == r as int) by {
            assert(a + b == r + n);
            vstd::arithmetic::div_mod::lemma_mod_add_multiples_vanish(r as int, n as int);
            vstd::arithmetic::div_mod::lemma_small_mod(r as nat, n as nat);
        }
        r
    } else {
        let r = a + b;
        assert((a + b) % (n as int) == r as int) by {
            vstd::arithmetic::div_mod::lemma_small_mod(r as nat, n as nat);
        }
        r
    }
}

impl Room {
    /// A room with tunnels to `adj` and no hazard.
    fn new(adj: [usize; 3]) -> (r: Room)
        ensures
            r.adjacent == adj,
            r.hazard is None,
    {
        Room { adjacent: adj, hazard: None }
    }

    /// Puts hazard `h` into the room, unless it holds one already.
    fn add_hazard(&mut self, h: Hazard) -> (r: Result<(), String>)
        ensures
            final(self).adjacent == old(self).adjacent,
            old(self).hazard is None ==> r is Ok && final(self).hazard == Some(h),
            old(self).hazard is Some ==> r is Err && r->Err_0@ == "already a hazard in this room"@
                && *final(self) == *old(self),
    {
        match self.hazard {
            None => {
                self.hazard = Some(h);
                Ok(())
            },
            Some(_) => Err(String::from_str("already a hazard in this room")),
        }
    }

    /// Whether a tunnel leads from this room to room `num`.
    pub fn is_adjacent(&self, num: usize) -> (r: bool)
        ensures
            r == self.adjacent@.contains(num),
    {
        let r = self.adjacent[0] == num || self.adjacent[1] == num || self.adjacent[2] == num;
        proof {
            if r {
                if self.adjacent[0] == num {
                    assert(self.adjacent@[0] == num);
                } else if self.adjacent[1] == num {
                    assert(self.adjacent@[1] == num);
                } else {
                    assert(self.adjacent@[2] == num);
                }
            }
        }
        r
    }
}

/// With no hazard anywhere, none is counted.
proof fn lemma_count_none(s: Seq<Room>)
    requires
        forall|i: int| 0 <= i < s.len() ==> (#[trigger] s[i]).hazard is None,
    ensures
        hazard_count(s) == 0,
    decreases s.len(),
{
    if s.len() > 0 {
        lemma_count_none(s.drop_last());
    }
}

/// `3n/4` computed as `n` less a quarter rounded up.
proof fn lemma_three_quarters(n: int)
    requires
        n >= 0,
    ensures
        3 * n / 4 == n - n / 4 - (if n % 4 == 0 { 0int } else { 1int }),
{
    vstd::arithmetic::div_mod::lemma_fundamental_div_mod(n, 4);
}

/// How the wumpus kills.
pub open spec fn eaten_text() -> Seq<char> {
    "You are eaten by the wumpus!"@
}

/// How a pitfall kills.
pub open spec fn fell_text() -> Seq<char> {
    "You slip into a pit!"@
}

/// The complaint about a move through a tunnel that is not there.
pub open spec fn no_tunnel_text() -> Seq<char> {
    "That room isn't connected to here!"@
}

/// The complaint about a shot through a tunnel that is not there.
pub open spec fn no_line_text() -> Seq<char> {
    "that room isn't connect to here"@
}

/// The cave: rooms numbered from 0, the player's start, and the hazards in them.
pub struct Cave {
    rooms: Vec<Room>,
}

impl View for Cave {
    type V = Seq<Room>;

    closed spec fn view(&self) -> Seq<Room> {
        self.rooms@
    }
}

impl Cave {
    /// A cave that the game can be played in: at least five rooms laid out as
    /// `neighbors` says, no hazard in the start room, and the wumpus in
    /// exactly one other room.
    pub open spec fn wf(&self) -> bool {
        &&& self@.len() >= 5
        &&& laid_out(self@, self@.len() as int)
        &&& self@[0].hazard is None
        &&& exists|w: int| 1 <= w && #[trigger] only_wumpus_at(self@, w)
    }

    /// Builds a cave of `t` rooms with the wumpus and `h` more hazards, each
    /// in a room of its own chosen at random, never the start room.
    pub fn new(t: usize, h: usize) -> (r: Result<Cave, ConfigError>)
        ensures
            t < 5 ==> r == Err::<Cave, ConfigError>(ConfigError::TooFewRooms),
            t >= 5 && h + 2 >= t ==> r == Err::<Cave, ConfigError>(ConfigError::TooManyHazards),
            t >= 5 && h + 2 < t ==> r is Ok && r->Ok_0.wf() && r->Ok_0@.len() == t
                && hazard_count(r->Ok_0@) == h + 1,
    {
        if t < 5 {
            return Err(ConfigError::TooFewRooms);
        } else if h >= t - 2 {
            return Err(ConfigError::TooManyHazards);
        }
        let q: usize = t / 4;
        let up: usize = if t % 4 == 0 { 0 } else { 1 };
        let three_q: usize = t - q - up;
        proof {
            lemma_three_quarters(t as int);
        }
        let mut rooms: Vec<Room> = Vec::new();
        let mut i: usize = 0;
        while i < t
            invariant
                5 <= t,
                q == t / 4,
                three_q == 3 * t / 4,
                i <= t,
                rooms@.len() == i,
                forall|j: int| 0 <= j < i ==> (#[trigger] rooms@[j]).adjacent@ == neighbors(j, t as int)
                    && rooms@[j].hazard is None,
            decreases t - i,
        {
            let fst = add_mod(i, 1, t);
            let snd = add_mod(i, 1 + q, t);
            let trd = add_mod(i, 1 + three_q, t);
            let adj = [fst, snd, trd];
            assert(adj@ =~= neighbors(i as int, t as int));
            let room = Room::new(adj);
            rooms.push(room);
            i = i + 1;
        }
        Cave::assign_hazards(&mut rooms, h);
        Ok(Cave { rooms })
    }

    /// Puts the wumpus, then `h` pitfalls or bats (a coin decides each),
    /// into distinct random rooms other than the start room. Only the
    /// hazards of the rooms change.
    fn assign_hazards(rooms: &mut Vec<Room>, h: usize)
        requires
            h + 2 <= old(rooms)@.len(),
            forall|i: int| 0 <= i < old(rooms)@.len() ==> (#[trigger] old(rooms)@[i]).hazard is None,
        ensures
            final(rooms)@.len() == old(rooms)@.len(),
            forall|i: int| 0 <= i < final(rooms)@.len()
                ==> (#[trigger] final(rooms)@[i]).adjacent == old(rooms)@[i].adjacent,
            final(rooms)@[0].hazard is None,
            exists|w: int| 1 <= w && #[trigger] only_wumpus_at(final(rooms)@, w),
            hazard_count(final(rooms)@) == h + 1,
    {
        let ghost start = rooms@;
        proof {
            lemma_count_none(rooms@);
        }
        let n = rooms.len();
        let num = random_room(1, n);
        let ghost before = rooms@;
        Cave::place_hazard(rooms, Hazard::Wumpus, num);
        proof {
            lemma_count_place(before, num as int, rooms@[num as int]);
        }
        let ghost w: int = num as int;
        assert(only_wumpus_at(rooms@, w));
        let mut k: usize = 0;
        while k < h
            invariant
                n == rooms@.len(),
                n == start.len(),
                h + 2 <= n,
                1 <= w < n,
                k <= h,
                forall|i: int| 0 <= i < n ==> (#[trigger] rooms@[i]).adjacent == start[i].adjacent,
                rooms@[0].hazard is None,
                only_wumpus_at(rooms@, w),
                hazard_count(rooms@) == k + 1,
            decreases h - k,
        {
            let hazard = hazard_for(coin_flip());
            let ghost before = rooms@;
            let f = Cave::place_somewhere(rooms, hazard);
            proof {
                lemma_count_place(before, f as int, rooms@[f as int]);
            }
            k = k + 1;
        }
    }

    /// Puts hazard `h` into room `drawn` if that room holds none; says
    /// whether it did. No other room, and no tunnel, changes.
    fn place_hazard(rooms: &mut Vec<Room>, h: Hazard, drawn: usize) -> (placed: bool)
        requires
            drawn < old(rooms)@.len(),
        ensures
            old(rooms)@[drawn as int].hazard is None ==> placed && final(rooms)@ == old(rooms)@.update(
                drawn as int,
                Room { adjacent: old(rooms)@[drawn as int].adjacent, hazard: Some(h) },
            ),
            old(rooms)@[drawn as int].hazard is Some ==> !placed && final(rooms)@ == old(rooms)@,
    {
        let mut room = rooms[drawn];
        match room.add_hazard(h) {
            Ok(()) => {
                rooms.set(drawn, room);
                true
            },
            Err(_) => false,
        }
    }

    /// Puts hazard `h` into a room other than the start room that holds
    /// none, and returns that room: one drawn at random, or the first free
    /// one in order once `MAX_DRAWS` draws have all hit a hazard.
    fn place_somewhere(rooms: &mut Vec<Room>, h: Hazard) -> (f: usize)
        requires
            old(rooms)@.len() >= 2,
            old(rooms)@[0].hazard is None,
            hazard_count(old(rooms)@) < old(rooms)@.len() - 1,
        ensures
            1 <= f < old(rooms)@.len(),
            old(rooms)@[f as int].hazard is None,
            final(rooms)@ == old(rooms)@.update(
                f as int,
                Room { adjacent: old(rooms)@[f as int].adjacent, hazard: Some(h) },
            ),
    {
        let ghost start = rooms@;
        let n = rooms.len();
        let mut tries: usize = 0;
        while tries < MAX_DRAWS
            invariant
                n == rooms@.len(),
                n >= 2,
                start == old(rooms)@,
                rooms@ == start,
            decreases MAX_DRAWS - tries,
        {
            let drawn = random_room(1, n);
            if Cave::place_hazard(rooms, h, drawn) {
                return drawn;
            }
            tries = tries + 1;
        }
        let mut j: usize = 1;
        while j < n && rooms[j].hazard.is_some()
            invariant
                n == rooms@.len(),
                1 <= j <= n,
                start == old(rooms)@,
                rooms@ == start,
                forall|i: int| 1 <= i < j ==> (#[trigger] rooms@[i]).hazard is Some,
            decreases n - j,
        {
            j = j + 1;
        }
        proof {
            if j == n {
                lemma_count_full(rooms@);
            }
        }
        Cave::place_hazard(rooms, h, j);
        j
    }

    /// The number of rooms.
    pub fn room_count(&self) -> (r: usize)
        ensures
            r == self@.len(),
    {
        self.rooms.len()
    }

    /// Room `i`: its tunnels and its hazard.
    pub fn room(&self, i: usize) -> (r: Room)
        requires
            i < self@.len(),
        ensures
            r == self@[i as int],
    {
        self.rooms[i]
    }

    /// The hazard in room `r`.
    pub open spec fn hazard_in(&self, r: int) -> Option<Hazard> {
        self@[r].hazard
    }

    /// A tunnel leads from room `from` to room `to`.
    pub open spec fn joined(&self, from: int, to: usize) -> bool {
        self@[from].adjacent@.contains(to)
    }

    /// Where a walk that entered `next` and was then carried by bats to each
    /// room of `flights` in turn ends.
    pub open spec fn landing(next: int, flights: Seq<usize>) -> int {
        if flights.len() == 0 {
            next
        } else {
            flights.last() as int
        }
    }

    /// `flights` is a chain of bat flights that starts in room `next`: each
    /// room left behind holds bats.
    pub open spec fn carried(&self, next: int, flights: Seq<usize>) -> bool {
        &&& forall|i: int| 0 <= i < flights.len() ==> flights[i] < self@.len()
        &&& flights.len() > 0 ==> self.hazard_in(next) == Some(Hazard::Bats)
        &&& forall|i: int| 0 <= i < flights.len() - 1 ==> self.hazard_in(#[trigger] flights[i] as int) == Some(Hazard::Bats)
    }

    /// `after` is `before` once it has come to rest in room `r`: killed by
    /// the wumpus or a pit, or standing there with its arrows.
    pub open spec fn settles(&self, before: Player, r: int, after: Player) -> bool {
        match self.hazard_in(r) {
            Some(Hazard::Wumpus) => after is Dead && after->Dead_0@ == eaten_text(),
            Some(Hazard::Pitfall) => after is Dead && after->Dead_0@ == fell_text(),
            Some(Hazard::Bats) => false,
            None => after_move(before, r as usize, after),
        }
    }

    /// Some room next to `room` holds hazard `h`.
    pub open spec fn heard_from(&self, room: int, h: Hazard) -> bool {
        exists|j: int| 0 <= j < 3 && #[trigger] self.hazard_in(self@[room].adjacent@[j] as int) == Some(h)
    }

    proof fn lemma_tunnels_inside(&self, from: int, to: usize)
        requires
            self.wf(),
            0 <= from < self@.len(),
            self.joined(from, to),
        ensures
            to < self@.len(),
    {
        let n = self@.len() as int;
        assert(self@[from].adjacent@ == neighbors(from, n));
        let j = choose|j: int| 0 <= j < 3 && self@[from].adjacent@[j] == to;
        assert(neighbors(from, n)[j] == to);
    }

    /// Every room has three tunnels, and each leads to a room of the cave.
    pub proof fn lemma_adjacency_in_range(&self, i: int)
        requires
            self.wf(),
            0 <= i < self@.len(),
        ensures
            self@[i].adjacent@.len() == 3,
            forall|j: int| 0 <= j < 3 ==> #[trigger] self@[i].adjacent@[j] < self@.len(),
    {
        assert forall|j: int| 0 <= j < 3 implies #[trigger] self@[i].adjacent@[j] < self@.len() by {
            assert(self.joined(i, self@[i].adjacent@[j]));
            self.lemma_tunnels_inside(i, self@[i].adjacent@[j]);
        }
    }

    /// Whether a tunnel leads from the player's room to room `num`.
    fn valid_room(&self, player: &Player, num: usize) -> (r: bool)
        requires
            self.wf(),
            player is Alive,
            player->location < self@.len(),
        ensures
            r == self.joined(player->location as int, num),
    {
        let current = player.get_loc().unwrap();
        self.rooms[current].is_adjacent(num)
    }

    /// Moves the player through the tunnel to room `next`. Entering the
    /// wumpus's room or a pit kills; bats carry the player to a random room,
    /// where the same happens again; a room without a hazard is where the
    /// player stays. Gives back, beside the player, the rooms the bats
    /// dropped the player in, in order. Without a tunnel to `next` nothing
    /// moves, and the player comes back unchanged with a complaint.
    pub fn go_to_room(&self, player: Player, next: usize) -> (r: Result<(Player, Vec<usize>), (String, Player)>)
        requires
            self.wf(),
            player is Alive,
            player->location < self@.len(),
        ensures
            !self.joined(player->location as int, next) ==> r is Err && r->Err_0.0@ == no_tunnel_text()
                && r->Err_0.1 == player,
            self.joined(player->location as int, next) ==> r is Ok
                && self.carried(next as int, r->Ok_0.1@)
                && self.settles(player, Cave::landing(next as int, r->Ok_0.1@), r->Ok_0.0),
            r is Ok ==> (r->Ok_0.0 is Dead <==> (self.hazard_in(Cave::landing(next as int, r->Ok_0.1@))
                == Some(Hazard::Wumpus) || self.hazard_in(Cave::landing(next as int, r->Ok_0.1@))
                == Some(Hazard::Pitfall))),
            r is Ok && !(r->Ok_0.0 is Dead) ==> r->Ok_0.0 == (Player::Alive {
                arrows: player->arrows,
                location: Cave::landing(next as int, r->Ok_0.1@) as usize,
            }) && self.hazard_in(r->Ok_0.0->location as int) is None,
    {
        if !self.valid_room(&player, next) {
            return Err((String::from_str("That room isn't connected to here!"), player));
        }
        proof {
            self.lemma_tunnels_inside(player->location as int, next);
        }
        Ok(self.checkout_room(player, next))
    }

    /// Resolves the player's entry into room `next`, following bats from room
    /// to room; after `MAX_BAT_FLIGHTS` flights the bats drop the player in
    /// the start room.
    fn checkout_room(&self, player: Player, next: usize) -> (r: (Player, Vec<usize>))
        requires
            self.wf(),
            player is Alive,
            next < self@.len(),
        ensures
            self.carried(next as int, r.1@),
            self.settles(player, Cave::landing(next as int, r.1@), r.0),
    {
        let n = self.rooms.len();
        let mut flights: Vec<usize> = Vec::new();
        let mut room = next;
        while flights.len() < MAX_BAT_FLIGHTS && self.rooms[room].hazard == Some(Hazard::Bats)
            invariant
                self.wf(),
                n == self@.len(),
                room < n,
                flights@.len() <= MAX_BAT_FLIGHTS,
                self.carried(next as int, flights@),
                room as int == Cave::landing(next as int, flights@),
            decreases MAX_BAT_FLIGHTS - flights@.len(),
        {
            room = random_room(0, n);
            flights.push(room);
        }
        if self.rooms[room].hazard == Some(Hazard::Bats) {
            room = 0;
            flights.push(room);
        }
        assert(self.carried(next as int, flights@));
        match self.rooms[room].hazard {
            Some(Hazard::Wumpus) => (player.kill(String::from_str("You are eaten by the wumpus!")), flights),
            Some(Hazard::Pitfall) => (player.kill(String::from_str("You slip into a pit!")), flights),
            None => (player.move_to(room), flights),
            Some(Hazard::Bats) => {
                assert(false);
                (player, flights)
            },
        }
    }

    /// Fires an arrow from the player's room into room `at`. Hitting the
    /// wumpus wins the game; a miss costs an arrow, and the last one costs
    /// the player's life. Without a tunnel to `at` no arrow flies, and the
    /// player comes back unchanged with a complaint.
    pub fn shoot_at_room(&self, player: Player, at: usize) -> (r: Result<Player, (String, Player)>)
        requires
            self.wf(),
            player is Alive,
            player->location < self@.len(),
        ensures
            !self.joined(player->location as int, at) ==> r is Err && r->Err_0.0@ == no_line_text()
                && r->Err_0.1 == player,
            self.joined(player->location as int, at) && self.hazard_in(at as int) == Some(Hazard::Wumpus)
                ==> r == Ok::<Player, (String, Player)>(Player::Win),
            self.joined(player->location as int, at) && self.hazard_in(at as int) != Some(Hazard::Wumpus)
                ==> r is Ok && after_shot(player, r->Ok_0),
    {
        if !self.valid_room(&player, at) {
            return Err((String::from_str("that room isn't connect to here"), player));
        }
        proof {
            self.lemma_tunnels_inside(player->location as int, at);
        }
        if let Some(Hazard::Wumpus) = self.rooms[at].hazard {
            Ok(player.praise())
        } else {
            Ok(player.shoot())
        }
    }

    /// What a living player sees and hears: the three rooms the tunnels lead
    /// to, and each kind of hazard held by one of those rooms, once, in the
    /// order the tunnels are listed. Nothing once the game is over.
    pub fn describe(&self, player: &Player) -> (r: Option<([usize; 3], Vec<Hazard>)>)
        requires
            self.wf(),
            player is Alive ==> player->location < self@.len(),
        ensures
            !(player is Alive) ==> r is None,
            player is Alive ==> r is Some
                && r->Some_0.0 == self@[player->location as int].adjacent
                && r->Some_0.1@.no_duplicates()
                && forall|h: Hazard| r->Some_0.1@.contains(h) <==> self.heard_from(player->location as int, h),
    {
        match player {
            Player::Alive { location, .. } => {
                let room = self.rooms[*location];
                let ghost here = *location as int;
                let mut hints: Vec<Hazard> = Vec::new();
                let mut j: usize = 0;
                while j < 3
                    invariant
                        self.wf(),
                        0 <= here < self@.len(),
                        room == self@[here],
                        j <= 3,
                        hints@.no_duplicates(),
                        forall|h: Hazard| hints@.contains(h) <==> exists|k: int| 0 <= k < j
                            && #[trigger] self.hazard_in(room.adjacent@[k] as int) == Some(h),
                    decreases 3 - j,
                {
                    let adj = room.adjacent[j];
                    let ghost before = hints@;
                    proof {
                        assert(room.adjacent@[j as int] == adj);
                        assert(self.joined(here, adj));
                        self.lemma_tunnels_inside(here, adj);
                    }
                    if let Some(h) = self.rooms[adj].hazard {
                        let mut seen = false;
                        let mut m: usize = 0;
                        while m < hints.len()
                            invariant
                                hints@ == before,
                                m <= hints@.len(),
                                seen <==> hints@.subrange(0, m as int).contains(h),
                            decreases hints@.len() - m,
                        {
                            proof {
                                let s0 = hints@.subrange(0, m as int);
                                let s1 = hints@.subrange(0, m + 1);
                                assert(s1 =~= s0.push(hints@[m as int]));
                                assert(s1.contains(h) <==> (s0.contains(h) || hints@[m as int] == h)) by {
                                    if s1.contains(h) {
                                        let i = choose|i: int| 0 <= i < s1.len() && s1[i] == h;
                                        if i < m {
                                            assert(s0[i] == h);
                                        }
                                    }
                                    if s0.contains(h) {
                                        let i = choose|i: int| 0 <= i < s0.len() && s0[i] == h;
                                        assert(s1[i] == h);
                                    }
                                    if hints@[m as int] == h {
                                        assert(s1[m as int] == h);
                                    }
                                }
                            }
                            if hints[m] == h {
                                seen = true;
                            }
                            m = m + 1;
                        }
                        assert(hints@.subrange(0, hints@.len() as int) =~= hints@);
                        if !seen {
                            hints.push(h);
                            proof {
                                assert(hints@ == before.push(h));
                                assert(hints@.no_duplicates()) by {
                                    assert forall|a: int, b: int| 0 <= a < b < hints@.len() implies hints@[a] != hints@[b] by {
                                        if b == before.len() {
                                            assert(before[a] == hints@[a]);
                                        }
                                    }
                                }
                            }
                        }
                    }
                    proof {
                        assert forall|x: Hazard| hints@.contains(x) <==> (before.contains(x)
                            || self.hazard_in(adj as int) == Some(x)) by {
                            if hints@.contains(x) && !before.contains(x) {
                                let i = choose|i: int| 0 <= i < hints@.len() && hints@[i] == x;
                                if i < before.len() {
                                    assert(before[i] == x);
                                }
                            }
                            if before.contains(x) {
                                let i = choose|i: int| 0 <= i < before.len() && before[i] == x;
                                assert(hints@[i] == x);
                            }
                            if self.hazard_in(adj as int) == Some(x) && !before.contains(x) {
                                assert(hints@[hints@.len() - 1] == x);
                            }
                        }
                        assert forall|x: Hazard| hints@.contains(x) <==> exists|k: int| 0 <= k < j + 1
                            && #[trigger] self.hazard_in(room.adjacent@[k] as int) == Some(x) by {
                            if exists|k: int| 0 <= k < j + 1 && #[trigger] self.hazard_in(room.adjacent@[k] as int) == Some(x) {
                                let k = choose|k: int| 0 <= k < j + 1 && #[trigger] self.hazard_in(room.adjacent@[k] as int) == Some(x);
                                if k < j {
                                    assert(before.contains(x));
                                }
                            }
                            if before.contains(x) {
                                let k = choose|k: int| 0 <= k < j && #[trigger] self.hazard_in(room.adjacent@[k] as int) == Some(x);
                                assert(0 <= k < j + 1);
                            }
                            if self.hazard_in(adj as int) == Some(x) {
                                assert(self.hazard_in(room.adjacent@[j as int] as int) == Some(x));
                            }
                        }
                    }
                    j = j + 1;
                }
                Some((room.adjacent, hints))
            },
            _ => None,
        }
    }
}

} // verus!
