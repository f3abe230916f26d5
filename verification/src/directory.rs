//! The room directory: the rooms the client knows of and who is in them.
//!
//! Only the signaling server authors membership. A room list replaces what is
//! known; a refresh replaces the membership of one room, marking members that
//! were not known before as connecting and leaving the others as they are.

use crate::error::ClientError;
use crate::ids::{
    contains_id, distinct, distinct_ids, is_in, lemma_distinct_ids,
    lemma_filter_all, lemma_filter_none, not_in, only, without,
};
use crate::rooms::{Room, RoomView};
use vstd::prelude::*;

verus! {

/// Mathematical value of one known room: the room and the members marked as
/// connecting.
pub struct RoomStateView {
    pub room: RoomView,
    pub connecting: Seq<Seq<char>>,
}

/// What is told to the directory.
pub enum DirectoryEvent {
    /// The membership of `room` is now `ids`.
    Refresh { room: Seq<char>, ids: Seq<Seq<char>> },
    /// The rooms are now `rooms`.
    RoomList { rooms: Seq<RoomView> },
}

/// What holds of every directory: no two rooms share an id, and no room lists
/// a member twice.
pub open spec fn directory_inv(d: Seq<RoomStateView>) -> bool {
    &&& forall|i: int, j: int| 0 <= i < j < d.len() ==> d[i].room.id != d[j].room.id
    &&& forall|i: int| 0 <= i < d.len() ==> (#[trigger] d[i]).room.member_ids.no_duplicates()
}

/// Whether some room of `d` has the id `room_id`.
pub open spec fn knows_room(d: Seq<RoomStateView>, room_id: Seq<char>) -> bool {
    exists|i: int| 0 <= i < d.len() && (#[trigger] d[i]).room.id == room_id
}

/// The position of the room with the id `room_id`, where there is one.
pub open spec fn room_position(d: Seq<RoomStateView>, room_id: Seq<char>) -> int {
    choose|i: int| 0 <= i < d.len() && (#[trigger] d[i]).room.id == room_id
}

/// The member set of the room `room_id`; empty for a room that is not known.
pub open spec fn members_of(d: Seq<RoomStateView>, room_id: Seq<char>) -> Set<Seq<char>> {
    if knows_room(d, room_id) {
        d[room_position(d, room_id)].room.member_ids.to_set()
    } else {
        Set::empty()
    }
}

/// A room of which only the id is known.
pub open spec fn blank_room(room_id: Seq<char>) -> RoomStateView {
    RoomStateView {
        room: RoomView {
            id: room_id,
            name: Seq::empty(),
            member_ids: Seq::empty(),
            host_id: Seq::empty(),
        },
        connecting: Seq::empty(),
    }
}

/// One room after a refresh to `ids`: its members are `ids` without repeats;
/// of the marks, those of members that stay are kept, and each member that was
/// not known before is marked.
pub open spec fn refreshed(old: RoomStateView, ids: Seq<Seq<char>>) -> RoomStateView {
    RoomStateView {
        room: RoomView { member_ids: distinct_ids(ids), ..old.room },
        connecting: old.connecting.filter(is_in(ids)) + distinct_ids(ids).filter(
            not_in(old.room.member_ids),
        ),
    }
}

/// The room that a refresh of `room_id` starts from.
pub open spec fn room_before(d: Seq<RoomStateView>, room_id: Seq<char>) -> RoomStateView {
    if knows_room(d, room_id) {
        d[room_position(d, room_id)]
    } else {
        blank_room(room_id)
    }
}

/// The directory after a refresh of `room_id` to `ids`. A room that was not
/// known is added at the end.
pub open spec fn refresh(d: Seq<RoomStateView>, room_id: Seq<char>, ids: Seq<Seq<char>>) -> Seq<
    RoomStateView,
> {
    if knows_room(d, room_id) {
        d.update(room_position(d, room_id), refreshed(room_before(d, room_id), ids))
    } else {
        d.push(refreshed(room_before(d, room_id), ids))
    }
}

/// The members that a refresh of `room_id` to `ids` discovers, in the order of
/// `ids`.
pub open spec fn newcomers(d: Seq<RoomStateView>, room_id: Seq<char>, ids: Seq<Seq<char>>) -> Seq<
    Seq<char>,
> {
    distinct_ids(ids).filter(not_in(room_before(d, room_id).room.member_ids))
}

/// The members that a refresh of `room_id` to `ids` no longer lists.
pub open spec fn leavers(d: Seq<RoomStateView>, room_id: Seq<char>, ids: Seq<Seq<char>>) -> Seq<
    Seq<char>,
> {
    room_before(d, room_id).room.member_ids.filter(not_in(ids))
}

/// Whether a room list can be taken over: every room is well formed and no two
/// rooms share an id.
pub open spec fn acceptable(rooms: Seq<RoomView>) -> bool {
    &&& forall|i: int| 0 <= i < rooms.len() ==> (#[trigger] rooms[i]).well_formed()
    &&& forall|i: int, j: int| 0 <= i < j < rooms.len() ==> rooms[i].id != rooms[j].id
}

/// The directory that holds exactly `rooms`, with no member marked.
pub open spec fn listed(rooms: Seq<RoomView>) -> Seq<RoomStateView> {
    Seq::new(rooms.len(), |i: int| RoomStateView { room: rooms[i], connecting: Seq::empty() })
}

/// The directory after a room list: the listed rooms where the list is
/// acceptable, the directory as it was where it is not.
pub open spec fn relist(d: Seq<RoomStateView>, rooms: Seq<RoomView>) -> Seq<RoomStateView> {
    if acceptable(rooms) {
        listed(rooms)
    } else {
        d
    }
}

/// The directory after one event.
pub open spec fn advance(d: Seq<RoomStateView>, event: DirectoryEvent) -> Seq<RoomStateView> {
    match event {
        DirectoryEvent::Refresh { room, ids } => refresh(d, room, ids),
        DirectoryEvent::RoomList { rooms } => relist(d, rooms),
    }
}

/// The directory after a sequence of events, first event first.
pub open spec fn advance_all(d: Seq<RoomStateView>, events: Seq<DirectoryEvent>) -> Seq<
    RoomStateView,
>
    decreases events.len(),
{
    if events.len() == 0 {
        d
    } else {
        advance(advance_all(d, events.drop_last()), events.last())
    }
}

/// The members that a room list gives the room `room_id`.
pub open spec fn listed_members(rooms: Seq<RoomView>, room_id: Seq<char>) -> Set<Seq<char>> {
    if exists|i: int| 0 <= i < rooms.len() && (#[trigger] rooms[i]).id == room_id {
        rooms[choose|i: int| 0 <= i < rooms.len() && (#[trigger] rooms[i]).id == room_id].member_ids.to_set()
    } else {
        Set::empty()
    }
}

/// The ids seen for `room_id` in the most recent event that speaks of it: the
/// ids of the latest refresh of that room or the members the latest accepted
/// room list gives it, whichever came last; the members at the start where no
/// event speaks of it.
pub open spec fn latest_members(
    d: Seq<RoomStateView>,
    events: Seq<DirectoryEvent>,
    room_id: Seq<char>,
) -> Set<Seq<char>>
    decreases events.len(),
{
    if events.len() == 0 {
        members_of(d, room_id)
    } else {
        match events.last() {
            DirectoryEvent::Refresh { room, ids } if room == room_id => ids.to_set(),
            DirectoryEvent::RoomList { rooms } if acceptable(rooms) => listed_members(
                rooms,
                room_id,
            ),
            _ => latest_members(d, events.drop_last(), room_id),
        }
    }
}

/// With distinct room ids, the room at `i` is found at `i`.
proof fn lemma_position(d: Seq<RoomStateView>, i: int)
    requires
        directory_inv(d),
        0 <= i < d.len(),
    ensures
        knows_room(d, d[i].room.id),
        room_position(d, d[i].room.id) == i,
{
}

/// A refresh keeps the directory's invariant, gives the refreshed room exactly
/// the ids of the refresh as its member set, and leaves the member set of
/// every other room as it was.
pub proof fn lemma_refresh(d: Seq<RoomStateView>, room_id: Seq<char>, ids: Seq<Seq<char>>)
    requires
        directory_inv(d),
    ensures
        directory_inv(refresh(d, room_id, ids)),
        members_of(refresh(d, room_id, ids), room_id) == ids.to_set(),
        forall|other: Seq<char>|
            other != room_id ==> #[trigger] members_of(refresh(d, room_id, ids), other)
                == members_of(d, other),
{
    let after = refresh(d, room_id, ids);
    let at: int = if knows_room(d, room_id) {
        room_position(d, room_id)
    } else {
        d.len() as int
    };
    lemma_distinct_ids(ids);
    lemma_position(after, at);
    assert forall|other: Seq<char>| other != room_id implies #[trigger] members_of(after, other)
        == members_of(d, other) by {
        if knows_room(d, other) {
            let i = room_position(d, other);
            lemma_position(after, i);
        }
    }
}

/// Applying the same refresh again changes nothing.
pub proof fn lemma_refresh_idempotent(d: Seq<RoomStateView>, room_id: Seq<char>, ids: Seq<Seq<char>>)
    requires
        directory_inv(d),
    ensures
        refresh(refresh(d, room_id, ids), room_id, ids) == refresh(d, room_id, ids),
{
    let once = refresh(d, room_id, ids);
    let at: int = if knows_room(d, room_id) {
        room_position(d, room_id)
    } else {
        d.len() as int
    };
    lemma_distinct_ids(ids);
    let old = room_before(d, room_id);
    let first = once[at];
    let members = distinct_ids(ids);
    // No member is new the second time.
    assert(members.filter(not_in(members)) == Seq::<Seq<char>>::empty()) by {
        lemma_filter_none(members, not_in(members));
    }
    // Every mark belongs to a member that stays.
    assert(first.connecting.filter(is_in(ids)) == first.connecting) by {
        let kept = old.connecting.filter(is_in(ids));
        let added = members.filter(not_in(old.room.member_ids));
        assert forall|i: int| 0 <= i < first.connecting.len() implies is_in(ids)(
            #[trigger] first.connecting[i],
        ) by {
            if i >= kept.len() {
                let k = i - kept.len();
                members.lemma_filter_contains_rev(not_in(old.room.member_ids), added[k]);
            }
        }
        lemma_filter_all(first.connecting, is_in(ids));
    }
}

/// A listed directory is well formed and gives each room the members of the
/// list.
proof fn lemma_listed(rooms: Seq<RoomView>, room_id: Seq<char>)
    requires
        acceptable(rooms),
    ensures
        directory_inv(listed(rooms)),
        members_of(listed(rooms), room_id) == listed_members(rooms, room_id),
{
    let d = listed(rooms);
    if !knows_room(d, room_id) && exists|i: int|
        0 <= i < rooms.len() && (#[trigger] rooms[i]).id == room_id {
        let j = choose|j: int| 0 <= j < rooms.len() && (#[trigger] rooms[j]).id == room_id;
        assert(d[j].room.id == room_id);
    }
}

/// After any sequence of refreshes and room lists, the member set of a room is
/// the set of ids seen for it in the most recent event that speaks of it.
pub proof fn lemma_members_follow_latest(
    d: Seq<RoomStateView>,
    events: Seq<DirectoryEvent>,
    room_id: Seq<char>,
)
    requires
        directory_inv(d),
    ensures
        directory_inv(advance_all(d, events)),
        members_of(advance_all(d, events), room_id) == latest_members(d, events, room_id),
    decreases events.len(),
{
    if events.len() > 0 {
        let before = advance_all(d, events.drop_last());
        lemma_members_follow_latest(d, events.drop_last(), room_id);
        match events.last() {
            DirectoryEvent::Refresh { room, ids } => {
                lemma_refresh(before, room, ids);
            },
            DirectoryEvent::RoomList { rooms } => {
                if acceptable(rooms) {
                    lemma_listed(rooms, room_id);
                }
            },
        }
    }
}

/// One known room.
pub struct RoomState {
    room: Room,
    connecting: Vec<String>,
}

impl View for RoomState {
    type V = RoomStateView;

    closed spec fn view(&self) -> RoomStateView {
        RoomStateView { room: self.room@, connecting: self.connecting.deep_view() }
    }
}

impl DeepView for RoomState {
    type V = RoomStateView;

    closed spec fn deep_view(&self) -> RoomStateView {
        self@
    }
}

/// What a refresh changed in the membership of a room.
#[derive(Debug, PartialEq, Eq)]
pub struct RefreshOutcome {
    /// Members that were not known before, in the order of the refresh.
    pub joined: Vec<String>,
    /// Members that the refresh no longer lists.
    pub left: Vec<String>,
}

/// What to show the operator.
#[derive(Debug, PartialEq, Eq)]
pub enum Presentation {
    /// The room that the local identity is a member of.
    CurrentRoom(Room),
    /// There are no rooms.
    NoRooms,
    /// The local identity is in no room: all rooms, to choose from.
    Rooms(Vec<Room>),
}

/// The rooms that the client knows of.
pub struct RoomDirectory {
    rooms: Vec<RoomState>,
}

impl View for RoomDirectory {
    type V = Seq<RoomStateView>;

    closed spec fn view(&self) -> Seq<RoomStateView> {
        self.rooms.deep_view()
    }
}

/// Whether `user` is a member of the room at `i` and of no room before it.
pub open spec fn is_current(d: Seq<RoomStateView>, user: Seq<char>, i: int) -> bool {
    &&& 0 <= i < d.len()
    &&& d[i].room.member_ids.contains(user)
    &&& forall|j: int| 0 <= j < i ==> !(#[trigger] d[j]).room.member_ids.contains(user)
}

/// The position of the first room that `user` is a member of.
pub open spec fn current_position(d: Seq<RoomStateView>, user: Seq<char>) -> Option<int> {
    if exists|i: int| is_current(d, user, i) {
        Some(choose|i: int| is_current(d, user, i))
    } else {
        None
    }
}

/// The first room of `user` is their current one.
proof fn lemma_current(d: Seq<RoomStateView>, user: Seq<char>, i: int)
    requires
        is_current(d, user, i),
    ensures
        current_position(d, user) == Some(i),
{
}

/// Mathematical value of a [`Presentation`].
pub enum PresentationView {
    CurrentRoom(RoomView),
    NoRooms,
    Rooms(Seq<RoomView>),
}

impl View for Presentation {
    type V = PresentationView;

    open spec fn view(&self) -> PresentationView {
        match self {
            Presentation::CurrentRoom(room) => PresentationView::CurrentRoom(room@),
            Presentation::NoRooms => PresentationView::NoRooms,
            Presentation::Rooms(rooms) => PresentationView::Rooms(rooms.deep_view()),
        }
    }
}

/// What the operator `user` is shown of the directory `d`: the first room they
/// are a member of; without one, that there are no rooms, or all rooms.
pub open spec fn presentation(d: Seq<RoomStateView>, user: Seq<char>) -> PresentationView {
    match current_position(d, user) {
        Some(i) => PresentationView::CurrentRoom(d[i].room),
        None => if d.len() == 0 {
            PresentationView::NoRooms
        } else {
            PresentationView::Rooms(rooms_of(d))
        },
    }
}

/// The rooms of a directory, without the marks.
pub open spec fn rooms_of(d: Seq<RoomStateView>) -> Seq<RoomView> {
    Seq::new(d.len(), |i: int| d[i].room)
}

impl RoomDirectory {
    /// The directory's invariant holds of its value.
    pub closed spec fn well_formed(&self) -> bool {
        directory_inv(self@)
    }

    /// A well-formed directory has a well-formed value.
    pub proof fn lemma_view_inv(&self)
        requires
            self.well_formed(),
        ensures
            directory_inv(self@),
    {
    }

    /// A directory that knows no room.
    pub fn new() -> (directory: RoomDirectory)
        ensures
            directory.well_formed(),
            directory@ == Seq::<RoomStateView>::empty(),
    {
        RoomDirectory { rooms: Vec::new() }
    }

    /// The number of known rooms.
    pub fn len(&self) -> (n: usize)
        ensures
            n == self@.len(),
    {
        self.rooms.len()
    }

    /// The room at position `i`.
    pub fn room(&self, i: usize) -> (room: Room)
        requires
            i < self@.len(),
        ensures
            room@ == self@[i as int].room,
    {
        self.rooms[i].room.clone()
    }

    /// The known rooms, in order.
    pub fn rooms(&self) -> (rooms: Vec<Room>)
        ensures
            rooms.deep_view() == rooms_of(self@),
    {
        let mut out: Vec<Room> = Vec::new();
        let mut i: usize = 0;
        while i < self.rooms.len()
            invariant
                i <= self.rooms.len(),
                out.len() == i,
                forall|j: int| 0 <= j < i ==> out[j]@ == self.rooms[j].room@,
            decreases self.rooms.len() - i,
        {
            out.push(self.rooms[i].room.clone());
            i += 1;
        }
        out
    }

    /// The position of the room with the id `room_id`.
    fn position(&self, room_id: &String) -> (r: Option<usize>)
        requires
            self.well_formed(),
        ensures
            match r {
                Some(i) => knows_room(self@, room_id@) && i == room_position(self@, room_id@),
                None => !knows_room(self@, room_id@),
            },
    {
        let mut i: usize = 0;
        while i < self.rooms.len()
            invariant
                self.well_formed(),
                i <= self.rooms.len(),
                forall|j: int| 0 <= j < i ==> self@[j].room.id != room_id@,
            decreases self.rooms.len() - i,
        {
            if self.rooms[i].room.id == *room_id {
                proof {
                    lemma_position(self@, i as int);
                }
                return Some(i);
            }
            i += 1;
        }
        None
    }

    /// Whether a room with the id `room_id` is known.
    pub fn knows(&self, room_id: &String) -> (r: bool)
        requires
            self.well_formed(),
        ensures
            r == knows_room(self@, room_id@),
    {
        self.position(room_id).is_some()
    }

    /// The members of the room `room_id`, in order; none for a room that is
    /// not known.
    pub fn members(&self, room_id: &String) -> (members: Vec<String>)
        requires
            self.well_formed(),
        ensures
            members.deep_view() == room_before(self@, room_id@).room.member_ids,
            members.deep_view().to_set() == members_of(self@, room_id@),
    {
        match self.position(room_id) {
            Some(i) => {
                self.rooms[i].room.member_ids.clone()
            },
            None => {
                Vec::new()
            },
        }
    }

    /// Whether `member` of the room `room_id` is marked as connecting.
    pub fn is_connecting(&self, room_id: &String, member: &String) -> (r: bool)
        requires
            self.well_formed(),
        ensures
            r == room_before(self@, room_id@).connecting.contains(member@),
    {
        match self.position(room_id) {
            Some(i) => contains_id(&self.rooms[i].connecting, member),
            None => false,
        }
    }

    /// Takes over the membership of the room `room_id` from a refresh.
    ///
    /// The room's members become `member_ids` without repeats. Members that
    /// were known stay as they are, marked or not; members that were not known
    /// are marked as connecting and reported as joined; members that are no
    /// longer listed are reported as left. A room that is not known yet is
    /// added. Afterwards the member set of the room is exactly the set of ids
    /// in `member_ids`, whatever was known before.
    pub fn apply_refresh(&mut self, room_id: &String, member_ids: &Vec<String>) -> (outcome:
        RefreshOutcome)
        requires
            old(self).well_formed(),
        ensures
            final(self).well_formed(),
            final(self)@ == refresh(old(self)@, room_id@, member_ids.deep_view()),
            outcome.joined.deep_view() == newcomers(old(self)@, room_id@, member_ids.deep_view()),
            outcome.left.deep_view() == leavers(old(self)@, room_id@, member_ids.deep_view()),
            members_of(final(self)@, room_id@) == member_ids.deep_view().to_set(),
    {
        let ghost before = self@;
        let ghost ids = member_ids.deep_view();
        proof {
            lemma_refresh(before, room_id@, ids);
        }
        let members = distinct(member_ids);
        match self.position(room_id) {
            Some(i) => {
                let RoomState { room, connecting } = self.rooms.remove(i);
                let Room { id, name, member_ids: known, host_id } = room;
                let joined = without(&members, &known);
                let left = without(&known, member_ids);
                let mut marks = only(&connecting, member_ids);
                let mut added = joined.clone();
                let ghost kept = marks.deep_view();
                marks.append(&mut added);
                assert(marks.deep_view() =~= kept + joined.deep_view());
                let next = RoomState {
                    room: Room { id, name, member_ids: members, host_id },
                    connecting: marks,
                };
                self.rooms.insert(i, next);
                assert(self@ =~= before.update(i as int, refreshed(before[i as int], ids)));
                RefreshOutcome { joined, left }
            },
            None => {
                let known: Vec<String> = Vec::new();
                let connecting: Vec<String> = Vec::new();
                assert(known.deep_view() =~= Seq::<Seq<char>>::empty());
                let joined = without(&members, &known);
                let left = without(&known, member_ids);
                let mut marks = only(&connecting, member_ids);
                let mut added = joined.clone();
                marks.append(&mut added);
                let next = RoomState {
                    room: Room {
                        id: room_id.clone(),
                        name: String::new(),
                        member_ids: members,
                        host_id: String::new(),
                    },
                    connecting: marks,
                };
                self.rooms.push(next);
                assert(self@ =~= before.push(refreshed(blank_room(room_id@), ids)));
                RefreshOutcome { joined, left }
            },
        }
    }

    /// Replaces the known rooms by `rooms`, with no member marked.
    ///
    /// A list in which a room lists a member twice, does not list its host as
    /// a member, or shares its id with another room is malformed: it is
    /// refused with `ProtocolError` and the directory stays as it is.
    pub fn apply_room_list(&mut self, rooms: Vec<Room>) -> (r: Result<(), ClientError>)
        requires
            old(self).well_formed(),
        ensures
            final(self).well_formed(),
            final(self)@ == relist(old(self)@, rooms.deep_view()),
            acceptable(rooms.deep_view()) ==> r is Ok,
            !acceptable(rooms.deep_view()) ==> r == Err::<(), ClientError>(
                ClientError::ProtocolError,
            ),
    {
        if !room_list_acceptable(&rooms) {
            return Err(ClientError::ProtocolError);
        }
        let ghost incoming = rooms.deep_view();
        let mut next: Vec<RoomState> = Vec::new();
        let mut i: usize = 0;
        while i < rooms.len()
            invariant
                i <= rooms.len(),
                next.len() == i,
                incoming == rooms.deep_view(),
                forall|k: int|
                    0 <= k < i ==> (#[trigger] next[k])@ == (RoomStateView {
                        room: incoming[k],
                        connecting: Seq::empty(),
                    }),
            decreases rooms.len() - i,
        {
            let connecting: Vec<String> = Vec::new();
            assert(connecting.deep_view() =~= Seq::<Seq<char>>::empty());
            next.push(RoomState { room: rooms[i].clone(), connecting });
            i += 1;
        }
        self.rooms = next;
        Ok(())
    }

    /// The position of the first room that `user_id` is a member of.
    pub fn current_room(&self, user_id: &String) -> (r: Option<usize>)
        ensures
            match r {
                Some(i) => current_position(self@, user_id@) == Some(i as int),
                None => current_position(self@, user_id@) is None,
            },
    {
        let mut i: usize = 0;
        while i < self.rooms.len()
            invariant
                i <= self.rooms.len(),
                forall|j: int|
                    0 <= j < i ==> !(#[trigger] self@[j]).room.member_ids.contains(user_id@),
            decreases self.rooms.len() - i,
        {
            if contains_id(&self.rooms[i].room.member_ids, user_id) {
                proof {
                    lemma_current(self@, user_id@, i as int);
                }
                return Some(i);
            }
            i += 1;
        }
        None
    }

    /// What to show the operator `user_id`: the room they are in, or that
    /// there are no rooms, or all rooms to choose from.
    pub fn present(&self, user_id: &String) -> (shown: Presentation)
        ensures
            shown@ == presentation(self@, user_id@),
    {
        match self.current_room(user_id) {
            Some(i) => Presentation::CurrentRoom(self.rooms[i].room.clone()),
            None => {
                if self.rooms.len() == 0 {
                    Presentation::NoRooms
                } else {
                    Presentation::Rooms(self.rooms())
                }
            },
        }
    }
}

/// Whether every room of `rooms` is well formed and no two share an id.
pub fn room_list_acceptable(rooms: &Vec<Room>) -> (r: bool)
    ensures
        r == acceptable(rooms.deep_view()),
{
    let ghost s = rooms.deep_view();
    let mut i: usize = 0;
    while i < rooms.len()
        invariant
            i <= rooms.len(),
            s == rooms.deep_view(),
            forall|a: int| 0 <= a < i ==> (#[trigger] s[a]).well_formed(),
            forall|a: int, b: int| 0 <= a < b < i ==> s[a].id != s[b].id,
        decreases rooms.len() - i,
    {
        let room = &rooms[i];
        assert(room@ == s[i as int]);
        if !room.is_well_formed() {
            return false;
        }
        let mut j: usize = 0;
        while j < i
            invariant
                j <= i < rooms.len(),
                s == rooms.deep_view(),
                forall|a: int| 0 <= a < j ==> s[a].id != s[i as int].id,
            decreases i - j,
        {
            if rooms[j].id == rooms[i].id {
                assert(s[j as int].id == s[i as int].id);
                return false;
            }
            j += 1;
        }
        i += 1;
    }
    true
}

} // verus!
