//! The user interfaces that are built from an application, and who may hold them when.
//!
//! A built interface (`U` below) refers to the application that it was built from. The managers
//! of this module own both, and hand the application out for changes only once no interface
//! refers to it any more.
use crate::outside::same_id;
use iced_core::window::Id;
use iced_runtime::user_interface::Cache;
use vstd::prelude::*;

verus! {

/// Holds a user interface that was checked out of its manager.
///
/// The manager stays borrowed while the guard lives, so nobody else can build, extract or
/// check out an interface meanwhile. The guard works on the place where the manager keeps the
/// interface: when it is dropped, the interface is back with the manager, unless it was taken.
pub struct UserInterfaceMutGuard<'a, U> {
    slot: &'a mut Option<U>,
}

impl<'a, U> UserInterfaceMutGuard<'a, U> {
    /// The interface that the guard holds, if it was not taken.
    pub open spec fn held(self) -> Option<U> {
        *self.slot()
    }

    /// Where the manager keeps the interface. Its final value is what the manager has once the
    /// guard is dropped.
    pub closed spec fn slot(self) -> &'a mut Option<U> {
        self.slot
    }

    fn take(&mut self) -> (ui: U)
        requires
            old(self).held() is Some,
        ensures
            old(self).held() == Some(ui),
            final(self).held() is None,
            *final(final(self).slot()) == *final(old(self).slot()),
    {
        self.slot.take().expect("ui is taken")
    }

    /// Draws the interface with `paint`, and keeps the interface that comes back.
    pub fn draw<I, F: FnOnce(U) -> (U, I)>(&mut self, paint: F) -> (interaction: I)
        requires
            old(self).held() is Some,
            paint.requires((old(self).held()->0,)),
        ensures
            final(self).held() is Some,
            paint.ensures((old(self).held()->0,), (final(self).held()->0, interaction)),
            *final(final(self).slot()) == *final(old(self).slot()),
    {
        let ui = self.take();
        let (ui, interaction) = paint(ui);
        *self.slot = Some(ui);
        interaction
    }

    /// Ends the interface, and leaves of it what `into_cache` makes of it. The manager has no
    /// interface then.
    pub fn into_cache<F: FnOnce(U) -> Cache>(self, into_cache: F) -> (cache: Cache)
        requires
            self.held() is Some,
            into_cache.requires((self.held()->0,)),
        ensures
            into_cache.ensures((self.held()->0,), cache),
            *final(self.slot()) is None,
    {
        let mut guard = self;
        into_cache(guard.take())
    }

    /// Applies a widget operation to the interface.
    pub fn operate<F: FnOnce(U) -> U>(&mut self, operation: F)
        requires
            old(self).held() is Some,
            operation.requires((old(self).held()->0,)),
        ensures
            final(self).held() is Some,
            operation.ensures((old(self).held()->0,), final(self).held()->0),
            *final(final(self).slot()) == *final(old(self).slot()),
    {
        let ui = self.take();
        *self.slot = Some(operation(ui));
    }

    /// Lays the interface out anew.
    pub fn relayout<F: FnOnce(U) -> U>(self, layout: F) -> (guard: Self)
        requires
            self.held() is Some,
            layout.requires((self.held()->0,)),
        ensures
            guard.held() is Some,
            layout.ensures((self.held()->0,), guard.held()->0),
            *final(guard.slot()) == *final(self.slot()),
    {
        let mut guard = self;
        let ui = layout(guard.take());
        *guard.slot = Some(ui);
        guard
    }

    /// Lets the interface process events with `process`, and returns what that yields.
    pub fn update<T, F: FnOnce(U) -> (U, T)>(&mut self, process: F) -> (res: T)
        requires
            old(self).held() is Some,
            process.requires((old(self).held()->0,)),
        ensures
            final(self).held() is Some,
            process.ensures((old(self).held()->0,), (final(self).held()->0, res)),
            *final(final(self).slot()) == *final(old(self).slot()),
    {
        let ui = self.take();
        let (ui, res) = process(ui);
        *self.slot = Some(ui);
        res
    }
}

/// A guard that is dropped leaves what it holds to the manager: the interface, as it has become,
/// or nothing if it was taken.
pub broadcast proof fn law_dropped_guard_gives_back<'a, U>(guard: UserInterfaceMutGuard<'a, U>)
    requires
        #[trigger] has_resolved(guard),
    ensures
        *final(guard.slot()) == guard.held(),
{
}

/// The user interface of a single window, with the application that it is built from.
///
/// The interface comes before the application, so it is also dropped before it.
pub struct UserInterface<A, U> {
    ui: Option<U>,
    application: Box<A>,
}

impl<A, U> UserInterface<A, U> {
    /// The interface that is built.
    pub closed spec fn interface(self) -> Option<U> {
        self.ui
    }

    /// The application.
    pub closed spec fn app(self) -> A {
        *self.application
    }

    /// Whether a guard got `held` out of `self`, and `after` is what the manager is when the guard
    /// has left `left` behind.
    pub open spec fn checked_out(self, held: Option<U>, left: Option<U>, after: Self) -> bool {
        &&& self.interface() is Some
        &&& held == self.interface()
        &&& after.interface() == left
        &&& after.app() == self.app()
    }

    /// No interface is built of a new application.
    pub fn new(application: A) -> (user_interface: Self)
        ensures
            user_interface.interface() is None,
            user_interface.app() == application,
    {
        Self { ui: None, application: Box::new(application) }
    }

    /// Whether an interface is built.
    pub fn is_built(&self) -> (built: bool)
        ensures
            built == (self.interface() is Some),
    {
        self.ui.is_some()
    }

    /// The application, to be read.
    pub fn application(&self) -> (application: &A)
        ensures
            *application == self.app(),
    {
        &self.application
    }

    /// Ends the interface, if one is built, and hands out the application for changes.
    ///
    /// No interface is left when the application is handed out.
    pub fn extract<F: FnOnce(U) -> Cache>(&mut self, into_cache: F) -> (extracted: (
        Option<Cache>,
        &mut A,
    ))
        requires
            old(self).interface() matches Some(ui) ==> into_cache.requires((ui,)),
        ensures
            extracted.0 is Some <==> old(self).interface() is Some,
            extracted.0 matches Some(cache) ==> into_cache.ensures(
                (old(self).interface()->0,),
                cache,
            ),
            *extracted.1 == old(self).app(),
            final(self).interface() is None,
            final(self).app() == *final(extracted.1),
    {
        let cache = match self.ui.take() {
            Some(ui) => Some(into_cache(ui)),
            None => None,
        };
        (cache, &mut self.application)
    }

    /// Checks the interface out, if one is built.
    pub fn ui_mut(&mut self) -> (guard: Option<UserInterfaceMutGuard<'_, U>>)
        ensures
            old(self).interface() is None ==> guard is None && *final(self) == *old(self),
            old(self).interface() is Some ==> {
                &&& guard is Some
                &&& old(self).checked_out(
                    guard->0.held(),
                    *final(guard->0.slot()),
                    *final(self),
                )
                &&& guard->0.held() == old(self).interface()
                &&& final(self).interface() == *final(guard->0.slot())
                &&& final(self).app() == old(self).app()
            },
    {
        if self.ui.is_some() {
            Some(UserInterfaceMutGuard { slot: &mut self.ui })
        } else {
            None
        }
    }

    /// Builds the interface with `make` from the application and what an earlier interface
    /// left behind. An interface that was there before is gone.
    pub fn build<F: FnOnce(&A, Cache) -> U>(&mut self, cache: Cache, make: F)
        requires
            make.requires((&old(self).app(), cache)),
        ensures
            final(self).interface() is Some,
            make.ensures((&old(self).app(), cache), final(self).interface()->0),
            final(self).app() == old(self).app(),
    {
        let ui = make(&*self.application, cache);
        self.ui = Some(ui);
    }
}

/// Whether `id` is the first part of an entry.
pub open spec fn has_entry<V>(entries: Seq<(Id, V)>, id: Id) -> bool {
    exists|i: int| 0 <= i < entries.len() && (#[trigger] entries[i]).0 == id
}

/// Whether no two entries share an id.
pub open spec fn ids_differ<V>(entries: Seq<(Id, V)>) -> bool {
    forall|i: int, j: int|
        0 <= i < j < entries.len() ==> (#[trigger] entries[i]).0 != (#[trigger] entries[j]).0
}

/// The entries as a map from ids.
pub open spec fn entry_map<V>(entries: Seq<(Id, V)>) -> Map<Id, V> {
    Map::new(
        |id: Id| has_entry(entries, id),
        |id: Id|
            {
                let i = choose|i: int| 0 <= i < entries.len() && (#[trigger] entries[i]).0 == id;
                entries[i].1
            },
    )
}

/// The entries that hold something, as a map from ids.
pub open spec fn filled<U>(entries: Seq<(Id, Option<U>)>) -> Map<Id, U> {
    Map::new(
        |id: Id| has_entry(entries, id) && entry_map(entries)[id] is Some,
        |id: Id| entry_map(entries)[id]->0,
    )
}

proof fn lemma_entry<V>(entries: Seq<(Id, V)>, i: int)
    requires
        ids_differ(entries),
        0 <= i < entries.len(),
    ensures
        entry_map(entries).contains_key(entries[i].0),
        entry_map(entries)[entries[i].0] == entries[i].1,
{
    let id = entries[i].0;
    assert(has_entry(entries, id));
    let j = choose|j: int| 0 <= j < entries.len() && (#[trigger] entries[j]).0 == id;
    assert(entries[j].0 == entries[i].0);
}

proof fn lemma_entry_changed<U>(entries: Seq<(Id, Option<U>)>, i: int, slot: Option<U>)
    requires
        ids_differ(entries),
        0 <= i < entries.len(),
    ensures
        ids_differ(entries.update(i, (entries[i].0, slot))),
        filled(entries.update(i, (entries[i].0, slot))) == (match slot {
            Some(ui) => filled(entries).insert(entries[i].0, ui),
            None => filled(entries).remove(entries[i].0),
        }),
{
    let changed = entries.update(i, (entries[i].0, slot));
    let id = entries[i].0;
    assert forall|j: int| 0 <= j < entries.len() implies (#[trigger] changed[j]).0
        == entries[j].0 by {}
    assert(ids_differ(changed)) by {
        assert forall|j: int, k: int| 0 <= j < k < changed.len() implies (#[trigger] changed[j]).0
            != (#[trigger] changed[k]).0 by {
            assert(entries[j].0 != entries[k].0);
        }
    }
    assert forall|other: Id| has_entry(changed, other) == has_entry(entries, other) by {
        if has_entry(changed, other) {
            let j = choose|j: int| 0 <= j < changed.len() && (#[trigger] changed[j]).0 == other;
            assert(entries[j].0 == other);
        }
        if has_entry(entries, other) {
            let j = choose|j: int| 0 <= j < entries.len() && (#[trigger] entries[j]).0 == other;
            assert(changed[j].0 == other);
        }
    }
    assert forall|other: Id| has_entry(entries, other) implies entry_map(changed)[other] == (
    if other == id {
        slot
    } else {
        entry_map(entries)[other]
    }) by {
        let j = choose|j: int| 0 <= j < entries.len() && (#[trigger] entries[j]).0 == other;
        lemma_entry(entries, j);
        assert(changed[j].0 == other);
        lemma_entry(changed, j);
        if other == id {
            assert(i == j);
        }
    }
    assert(has_entry(entries, id));
    match slot {
        Some(ui) => {
            assert(filled(changed) =~= filled(entries).insert(id, ui));
        },
        None => {
            assert(filled(changed) =~= filled(entries).remove(id));
        },
    }
}

proof fn lemma_entry_removed<U>(entries: Seq<(Id, Option<U>)>, i: int)
    requires
        ids_differ(entries),
        0 <= i < entries.len(),
    ensures
        ids_differ(entries.remove(i)),
        filled(entries.remove(i)) == filled(entries).remove(entries[i].0),
{
    let rest = entries.remove(i);
    let id = entries[i].0;
    assert forall|other: Id| has_entry(rest, other) == (has_entry(entries, other) && other != id) by {
        if has_entry(rest, other) {
            let j = choose|j: int| 0 <= j < rest.len() && (#[trigger] rest[j]).0 == other;
            let k = if j < i { j } else { j + 1 };
            assert(entries[k] == rest[j]);
        }
        if has_entry(entries, other) && other != id {
            let k = choose|k: int| 0 <= k < entries.len() && (#[trigger] entries[k]).0 == other;
            let j = if k < i { k } else { k - 1 };
            assert(rest[j] == entries[k]);
        }
    }
    assert forall|other: Id| has_entry(rest, other) implies entry_map(rest)[other] == entry_map(
        entries,
    )[other] by {
        let j = choose|j: int| 0 <= j < rest.len() && (#[trigger] rest[j]).0 == other;
        let k = if j < i { j } else { j + 1 };
        assert(entries[k] == rest[j]);
        lemma_entry(entries, k);
        lemma_entry(rest, j);
    }
    assert(filled(rest) =~= filled(entries).remove(id));
}

proof fn lemma_entry_added<U>(entries: Seq<(Id, Option<U>)>, id: Id, ui: U)
    requires
        ids_differ(entries),
        !has_entry(entries, id),
    ensures
        ids_differ(entries.push((id, Some(ui)))),
        filled(entries.push((id, Some(ui)))) == filled(entries).insert(id, ui),
{
    let more = entries.push((id, Some(ui)));
    assert forall|i: int, j: int| 0 <= i < j < more.len() implies (#[trigger] more[i]).0 != (
    #[trigger] more[j]).0 by {
        assert(more[i] == entries[i]);
        if j < entries.len() {
            assert(more[j] == entries[j]);
        }
    }
    assert forall|other: Id| has_entry(more, other) == (has_entry(entries, other) || other == id) by {
        if has_entry(entries, other) {
            let k = choose|k: int| 0 <= k < entries.len() && (#[trigger] entries[k]).0 == other;
            assert(more[k] == entries[k]);
        }
        assert(more[entries.len() as int] == (id, Some(ui)));
    }
    assert forall|other: Id| has_entry(more, other) implies entry_map(more)[other] == (if other
        == id {
        Some(ui)
    } else {
        entry_map(entries)[other]
    }) by {
        let k = choose|k: int| 0 <= k < more.len() && (#[trigger] more[k]).0 == other;
        lemma_entry(more, k);
        if k < entries.len() {
            assert(more[k] == entries[k]);
            lemma_entry(entries, k);
        }
    }
    assert(filled(more) =~= filled(entries).insert(id, ui));
}

/// Whether the cache was made of an interface among the first `done` entries.
spec fn made_of_entry<U, F: Fn(U) -> Cache>(
    into_cache: F,
    entries: Seq<(Id, Option<U>)>,
    done: int,
    cache: (Id, Cache),
) -> bool {
    exists|j: int|
        {
            &&& 0 <= j < done
            &&& (#[trigger] entries[j]).0 == cache.0
            &&& entries[j].1 is Some
            &&& into_cache.ensures((entries[j].1->0,), cache.1)
        }
}

/// The user interfaces of an application with many windows, one for each window at most.
///
/// The interfaces come before the application, so they are also dropped before it.
pub struct UserInterfaces<A, U> {
    /// A window whose interface was taken keeps its entry, which then holds nothing.
    uis: Vec<(Id, Option<U>)>,
    application: Box<A>,
}

impl<A, U> UserInterfaces<A, U> {
    /// The windows with their interfaces.
    pub closed spec fn entries(self) -> Seq<(Id, Option<U>)> {
        self.uis@
    }

    /// The interface of each window that has one.
    pub open spec fn interfaces(self) -> Map<Id, U> {
        filled(self.entries())
    }

    /// The application.
    pub closed spec fn app(self) -> A {
        *self.application
    }

    /// A window has one interface at most.
    pub open spec fn wf(self) -> bool {
        ids_differ(self.entries())
    }

    /// Whether a guard got `held` out of `self` for the window `id`, and `after` is what the
    /// manager is when the guard has left `left` behind.
    pub open spec fn checked_out(
        self,
        id: Id,
        held: Option<U>,
        left: Option<U>,
        after: Self,
    ) -> bool {
        &&& self.interfaces().contains_key(id)
        &&& held == Some(self.interfaces()[id])
        &&& after.wf()
        &&& after.interfaces() == (match left {
            Some(ui) => self.interfaces().insert(id, ui),
            None => self.interfaces().remove(id),
        })
        &&& after.app() == self.app()
    }

    /// No interface is built of a new application.
    pub fn new(application: A) -> (user_interfaces: Self)
        ensures
            user_interfaces.wf(),
            user_interfaces.interfaces() == Map::<Id, U>::empty(),
            user_interfaces.app() == application,
    {
        let user_interfaces = Self { uis: Vec::new(), application: Box::new(application) };
        assert(user_interfaces.interfaces() =~= Map::<Id, U>::empty());
        user_interfaces
    }

    /// The application, to be read.
    pub fn application(&self) -> (application: &A)
        ensures
            *application == self.app(),
    {
        &self.application
    }

    fn position(&self, id: &Id) -> (position: Option<usize>)
        requires
            self.wf(),
        ensures
            position is Some <==> has_entry(self.entries(), *id),
            position matches Some(i) ==> {
                &&& i < self.uis@.len()
                &&& self.uis@[i as int].0 == *id
                &&& self.uis@[i as int].1 is Some <==> self.interfaces().contains_key(*id)
                &&& self.uis@[i as int].1 is Some ==> self.interfaces()[*id]
                    == self.uis@[i as int].1->0
            },
            position is None ==> !self.interfaces().contains_key(*id),
    {
        let mut i: usize = 0;
        while i < self.uis.len()
            invariant
                i <= self.uis@.len(),
                self.wf(),
                forall|j: int| 0 <= j < i ==> (#[trigger] self.uis@[j]).0 != *id,
            decreases self.uis@.len() - i,
        {
            if same_id(&self.uis[i].0, id) {
                proof {
                    lemma_entry(self.uis@, i as int);
                }
                return Some(i);
            }
            i = i + 1;
        }
        None
    }

    /// Ends the interface of the window `id`, if it has one.
    pub fn remove<F: FnOnce(U) -> Cache>(&mut self, id: &Id, into_cache: F) -> (cache: Option<Cache>)
        requires
            old(self).wf(),
            old(self).interfaces().contains_key(*id) ==> into_cache.requires(
                (old(self).interfaces()[*id],),
            ),
        ensures
            final(self).wf(),
            final(self).app() == old(self).app(),
            final(self).interfaces() == old(self).interfaces().remove(*id),
            cache is Some <==> old(self).interfaces().contains_key(*id),
            cache matches Some(cache) ==> into_cache.ensures(
                (old(self).interfaces()[*id],),
                cache,
            ),
    {
        match self.position(id) {
            Some(i) => {
                proof {
                    lemma_entry_removed(self.uis@, i as int);
                }
                let (_, ui) = self.uis.remove(i);
                match ui {
                    Some(ui) => Some(into_cache(ui)),
                    None => None,
                }
            },
            None => {
                assert(self.interfaces() =~= self.interfaces().remove(*id));
                None
            },
        }
    }

    /// Ends all interfaces, and hands out the application for changes.
    ///
    /// No interface is left when the application is handed out. The caches come with the ids of
    /// their windows, each window once.
    pub fn extract_all<F: Fn(U) -> Cache>(&mut self, into_cache: F) -> (extracted: (
        Vec<(Id, Cache)>,
        &mut A,
    ))
        requires
            old(self).wf(),
            forall|id: Id| #[trigger]
                old(self).interfaces().contains_key(id) ==> into_cache.requires(
                    (old(self).interfaces()[id],),
                ),
        ensures
            ids_differ(extracted.0@),
            entry_map(extracted.0@).dom() == old(self).interfaces().dom(),
            forall|id: Id| #[trigger]
                old(self).interfaces().contains_key(id) ==> into_cache.ensures(
                    (old(self).interfaces()[id],),
                    entry_map(extracted.0@)[id],
                ),
            *extracted.1 == old(self).app(),
            final(self).wf(),
            final(self).interfaces() == Map::<Id, U>::empty(),
            final(self).app() == *final(extracted.1),
    {
        let mut caches: Vec<(Id, Cache)> = Vec::new();
        let ghost all = self.uis@;
        let ghost mut done: int = 0;
        assert(old(self).interfaces() == filled(all));
        assert(all.skip(0) =~= all);
        while self.uis.len() > 0
            invariant
                self.application == old(self).application,
                all == old(self).uis@,
                ids_differ(all),
                0 <= done <= all.len(),
                self.uis@ == all.skip(done),
                forall|id: Id| #[trigger]
                    filled(all).contains_key(id) ==> into_cache.requires((filled(all)[id],)),
                ids_differ(caches@),
                forall|c: int|
                    0 <= c < caches@.len() ==> made_of_entry(
                        into_cache,
                        all,
                        done,
                        #[trigger] caches@[c],
                    ),
                forall|j: int|
                    0 <= j < done && (#[trigger] all[j]).1 is Some ==> has_entry(caches@, all[j].0),
            decreases self.uis@.len(),
        {
            proof {
                lemma_entry(all, done);
            }
            let (id, ui) = self.uis.remove(0);
            assert(self.uis@ =~= all.skip(done + 1));
            match ui {
                Some(ui) => {
                    assert(filled(all).contains_key(id));
                    let ghost earlier = caches@;
                    caches.push((id, into_cache(ui)));
                    proof {
                        assert forall|i: int, j: int| 0 <= i < j < caches@.len() implies (
                        #[trigger] caches@[i]).0 != (#[trigger] caches@[j]).0 by {
                            assert(caches@[i] == earlier[i]);
                            if j < earlier.len() {
                                assert(caches@[j] == earlier[j]);
                            }
                        }
                        assert forall|c: int| 0 <= c < caches@.len() implies made_of_entry(
                            into_cache,
                            all,
                            done + 1,
                            #[trigger] caches@[c],
                        ) by {
                            if c < earlier.len() {
                                assert(made_of_entry(into_cache, all, done, earlier[c]));
                            } else {
                                assert(all[done].0 == caches@[c].0);
                            }
                        }
                        assert forall|j: int|
                            0 <= j < done + 1 && (#[trigger] all[j]).1 is Some implies has_entry(
                            caches@,
                            all[j].0,
                        ) by {
                            if j < done {
                                let c = choose|c: int|
                                    0 <= c < earlier.len() && (#[trigger] earlier[c]).0 == all[j].0;
                                assert(caches@[c] == earlier[c]);
                            } else {
                                assert(caches@[earlier.len() as int].0 == all[j].0);
                            }
                        }
                    }
                },
                None => {
                    assert forall|c: int| 0 <= c < caches@.len() implies made_of_entry(
                        into_cache,
                        all,
                        done + 1,
                        #[trigger] caches@[c],
                    ) by {
                        assert(made_of_entry(into_cache, all, done, caches@[c]));
                    }
                },
            }
            proof {
                done = done + 1;
            }
        }
        proof {
            assert(done == all.len());
            assert forall|id: Id| has_entry(caches@, id) == filled(all).contains_key(id) by {
                if has_entry(caches@, id) {
                    let c = choose|c: int|
                        0 <= c < caches@.len() && (#[trigger] caches@[c]).0 == id;
                    assert(made_of_entry(into_cache, all, done, caches@[c]));
                    let j = choose|j: int|
                        0 <= j < done && (#[trigger] all[j]).0 == caches@[c].0 && all[j].1 is Some
                            && into_cache.ensures((all[j].1->0,), caches@[c].1);
                    lemma_entry(all, j);
                }
                if filled(all).contains_key(id) {
                    let j = choose|j: int| 0 <= j < all.len() && (#[trigger] all[j]).0 == id;
                    lemma_entry(all, j);
                }
            }
            assert(entry_map(caches@).dom() =~= filled(all).dom());
            assert forall|id: Id| #[trigger]
                filled(all).contains_key(id) implies into_cache.ensures(
                (filled(all)[id],),
                entry_map(caches@)[id],
            ) by {
                assert(has_entry(caches@, id));
                let c = choose|c: int| 0 <= c < caches@.len() && (#[trigger] caches@[c]).0 == id;
                lemma_entry(caches@, c);
                assert(made_of_entry(into_cache, all, done, caches@[c]));
                let j = choose|j: int|
                    0 <= j < done && (#[trigger] all[j]).0 == caches@[c].0 && all[j].1 is Some
                        && into_cache.ensures((all[j].1->0,), caches@[c].1);
                lemma_entry(all, j);
            }
            assert(self.interfaces() =~= Map::<Id, U>::empty());
        }
        (caches, &mut self.application)
    }

    /// Checks the interface of the window `id` out, if it has one.
    pub fn ui_mut(&mut self, id: &Id) -> (guard: Option<UserInterfaceMutGuard<'_, U>>)
        requires
            old(self).wf(),
        ensures
            !old(self).interfaces().contains_key(*id) ==> {
                &&& guard is None
                &&& *final(self) == *old(self)
            },
            old(self).interfaces().contains_key(*id) ==> {
                &&& guard is Some
                &&& old(self).checked_out(
                    *id,
                    guard->0.held(),
                    *final(guard->0.slot()),
                    *final(self),
                )
                &&& guard->0.held() == Some(old(self).interfaces()[*id])
                &&& final(self).app() == old(self).app()
                &&& final(self).interfaces() == (match *final(guard->0.slot()) {
                    Some(ui) => old(self).interfaces().insert(*id, ui),
                    None => old(self).interfaces().remove(*id),
                })
            },
    {
        match self.position(id) {
            Some(i) => {
                if self.uis[i].1.is_some() {
                    let slot = &mut self.uis[i].1;
                    proof {
                        lemma_entry_changed(old(self).uis@, i as int, *final(slot));
                    }
                    Some(UserInterfaceMutGuard { slot })
                } else {
                    None
                }
            },
            None => None,
        }
    }

    /// Builds the interface of the window `id` with `make` from the application and what an
    /// earlier interface left behind. An interface that the window had before is gone, and the
    /// other windows keep theirs.
    pub fn build<F: FnOnce(&A, Id, Cache) -> U>(&mut self, id: Id, cache: Cache, make: F)
        requires
            old(self).wf(),
            make.requires((&old(self).app(), id, cache)),
        ensures
            final(self).wf(),
            final(self).app() == old(self).app(),
            final(self).interfaces().contains_key(id),
            make.ensures((&old(self).app(), id, cache), final(self).interfaces()[id]),
            final(self).interfaces() == old(self).interfaces().insert(
                id,
                final(self).interfaces()[id],
            ),
    {
        let ui = make(&*self.application, id, cache);
        match self.position(&id) {
            Some(i) => {
                proof {
                    lemma_entry_changed(self.uis@, i as int, Some(ui));
                }
                self.uis[i].1 = Some(ui);
                assert(self.uis@ =~= old(self).uis@.update(i as int, (id, Some(ui))));
            },
            None => {
                proof {
                    lemma_entry_added(self.uis@, id, ui);
                }
                self.uis.push((id, Some(ui)));
            },
        }
    }
}

/// A guard that is dropped with the interface it was given leaves the manager as it was.
pub proof fn law_dropped_guard_returns_interface<A, U>(
    before: UserInterface<A, U>,
    held: Option<U>,
    after: UserInterface<A, U>,
)
    requires
        before.checked_out(held, held, after),
    ensures
        after == before,
{
}

/// A guard whose interface has changed leaves the manager with the changed interface, and with
/// the same application.
pub proof fn law_changed_interface_is_kept<A, U>(
    before: UserInterface<A, U>,
    held: Option<U>,
    changed: U,
    after: UserInterface<A, U>,
)
    requires
        before.checked_out(held, Some(changed), after),
    ensures
        after.interface() == Some(changed),
        after.app() == before.app(),
{
}

/// A guard that is dropped with the interface it was given leaves the interfaces of all windows
/// as they were.
pub proof fn law_dropped_guard_returns_window<A, U>(
    before: UserInterfaces<A, U>,
    id: Id,
    held: Option<U>,
    after: UserInterfaces<A, U>,
)
    requires
        before.checked_out(id, held, held, after),
    ensures
        after.wf(),
        after.interfaces() == before.interfaces(),
        after.app() == before.app(),
{
    assert(before.interfaces().insert(id, before.interfaces()[id]) =~= before.interfaces());
}

/// Whatever becomes of the interface of one window while it is checked out, the other windows
/// keep theirs.
pub proof fn law_other_windows_keep_their_interfaces<A, U>(
    before: UserInterfaces<A, U>,
    id: Id,
    held: Option<U>,
    left: Option<U>,
    after: UserInterfaces<A, U>,
    other: Id,
)
    requires
        before.checked_out(id, held, left, after),
        other != id,
    ensures
        after.interfaces().contains_key(other) == before.interfaces().contains_key(other),
        before.interfaces().contains_key(other) ==> after.interfaces()[other]
            == before.interfaces()[other],
        after.interfaces().contains_key(id) == (left is Some),
{
}

/// The interfaces of a manager are those that its entries hold: a window has an interface exactly
/// when one of the entries holds one under its id, and it is that one.
pub proof fn law_interfaces_are_what_the_entries_hold<A, U>(
    manager: UserInterfaces<A, U>,
    i: int,
    id: Id,
)
    requires
        manager.wf(),
    ensures
        0 <= i < manager.entries().len() && manager.entries()[i].0 == id ==> {
            &&& manager.interfaces().contains_key(id) <==> manager.entries()[i].1 is Some
            &&& manager.entries()[i].1 matches Some(ui) ==> manager.interfaces()[id] == ui
        },
        (forall|j: int| 0 <= j < manager.entries().len() ==> (#[trigger] manager.entries()[j]).0 != id)
            ==> !manager.interfaces().contains_key(id),
{
    if 0 <= i < manager.entries().len() {
        lemma_entry(manager.entries(), i);
    }
}

/// A guard that has taken the interface leaves the manager without one, and with its application.
pub proof fn law_taken_interface_is_gone<A, U>(
    before: UserInterface<A, U>,
    held: Option<U>,
    after: UserInterface<A, U>,
)
    requires
        before.checked_out(held, None, after),
    ensures
        before.interface() is Some,
        held == before.interface(),
        after.interface() is None,
        after.app() == before.app(),
{
}

} // verus!
