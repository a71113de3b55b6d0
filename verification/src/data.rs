//! The areas that hold loaded classes and methods, before and after their
//! preparation for running.
use vstd::prelude::*;

use std::sync::Arc;

use crate::class::{Class, ClassView, Method, MethodDescriptor, MethodDescriptorView, MethodView};
use crate::class_loader::LoadError;
use crate::error::Fault;
use crate::prepare::traverse;
use crate::raw_class::{
    class_with_methods, method_names_view, spec_cook, spec_to_class, MethodName, RawClass, RawClassView,
    RawMethod, RawMethodView,
};
use crate::text::chars_eq;

verus! {

/// The null reference.
pub const NULL: u32 = 0;

/// The first reference that the heap hands out.
pub const HEAP_START: u32 = 0x8000;

/// The key under which a method is filed: its class, name and descriptor.
pub type MethodKey = (Seq<char>, Seq<char>, MethodDescriptorView);

/// The position of the first entry of `keys` equal to `k`, or -1.
pub open spec fn find_key<K>(keys: Seq<K>, k: K) -> int
    decreases keys.len(),
{
    if keys.len() == 0 {
        -1
    } else if find_key(keys.drop_last(), k) >= 0 {
        find_key(keys.drop_last(), k)
    } else if keys.last() == k {
        keys.len() - 1
    } else {
        -1
    }
}

/// `find_key` gives the first match, or -1 when there is none.
pub proof fn lemma_find_key<K>(keys: Seq<K>, k: K)
    ensures
        -1 <= find_key(keys, k) < keys.len(),
        find_key(keys, k) >= 0 ==> keys[find_key(keys, k)] == k && forall|j: int|
            0 <= j < find_key(keys, k) ==> keys[j] != k,
        find_key(keys, k) == -1 ==> forall|j: int| 0 <= j < keys.len() ==> keys[j] != k,
    decreases keys.len(),
{
    if keys.len() > 0 {
        let d = keys.drop_last();
        lemma_find_key(d, k);
        assert forall|j: int| 0 <= j < d.len() implies d[j] == keys[j] by {}
    }
}

/// `keys` with the entry for `k` replaced by `v` where there is one, and `k`
/// added at the end otherwise: what inserting into a map does to its keys
/// and values, kept in insertion order.
pub open spec fn insert_entry<K, V>(entries: Seq<(K, V)>, k: K, v: V) -> Seq<(K, V)> {
    let i = find_key(entries.map_values(|e: (K, V)| e.0), k);
    if i >= 0 {
        entries.update(i, (k, v))
    } else {
        entries.push((k, v))
    }
}

/// Looks a key up among the entries.
pub open spec fn lookup_entry<K, V>(entries: Seq<(K, V)>, k: K) -> Option<V> {
    let i = find_key(entries.map_values(|e: (K, V)| e.0), k);
    if i >= 0 {
        Some(entries[i].1)
    } else {
        None
    }
}

/// After inserting `v` under `k`, looking `k` up gives `v`, and every other
/// key gives what it gave before.
pub proof fn lemma_insert_lookup<K, V>(entries: Seq<(K, V)>, k: K, v: V, k2: K)
    ensures
        lookup_entry(insert_entry(entries, k, v), k2) == if k2 == k {
            Some(v)
        } else {
            lookup_entry(entries, k2)
        },
{
    let keys = entries.map_values(|e: (K, V)| e.0);
    let new_entries = insert_entry(entries, k, v);
    let new_keys = new_entries.map_values(|e: (K, V)| e.0);
    lemma_find_key(keys, k);
    lemma_find_key(keys, k2);
    lemma_find_key(new_keys, k2);
    let i = find_key(keys, k);
    if i >= 0 {
        assert(new_keys =~= keys.update(i, k));
    } else {
        assert(new_keys =~= keys.push(k));
    }
    let j = find_key(new_keys, k2);
    let j0 = find_key(keys, k2);
    if k2 == k {
        if i >= 0 {
            assert(new_keys[i] == k);
            if j < i && j >= 0 {
                assert(keys[j] == new_keys[j]);
            }
            assert(j == i);
        } else {
            assert(new_keys[keys.len() as int] == k);
            assert(j == keys.len());
        }
    } else {
        if j0 >= 0 {
            assert(new_keys[j0] == k2);
            if 0 <= j < j0 {
                assert(keys[j] == new_keys[j]);
            }
            assert(j == j0);
            assert(new_entries[j] == entries[j]);
        } else {
            if j >= 0 {
                if j < keys.len() {
                    assert(keys[j] == new_keys[j]);
                }
            }
            assert(j == -1);
        }
    }
}

/// The key of a raw method filed under class `class`.
pub open spec fn raw_method_key(class: Seq<char>, m: RawMethodView) -> MethodKey {
    (class, m.name, m.descriptor)
}

/// The methods of all loaded classes, before their code is prepared, filed by
/// class, name and descriptor.
pub struct WorkingMethodArea {
    methods: Vec<(Vec<char>, RawMethod)>,
}

/// The view of the entries of a working method area: each method under its
/// key, with its class.
pub open spec fn working_entries_view(s: Seq<(Vec<char>, RawMethod)>) -> Seq<
    (MethodKey, (Seq<char>, RawMethodView)),
> {
    s.map_values(
        |e: (Vec<char>, RawMethod)| (raw_method_key(e.0@, e.1@), (e.0@, e.1@)),
    )
}

impl View for WorkingMethodArea {
    type V = Seq<(MethodKey, (Seq<char>, RawMethodView))>;

    closed spec fn view(&self) -> Self::V {
        working_entries_view(self.methods@)
    }
}

impl WorkingMethodArea {
    /// An empty area.
    pub fn new() -> (r: WorkingMethodArea)
        ensures
            r@ == Seq::<(MethodKey, (Seq<char>, RawMethodView))>::empty(),
    {
        let r = WorkingMethodArea { methods: Vec::new() };
        assert(r@ =~= Seq::<(MethodKey, (Seq<char>, RawMethodView))>::empty());
        r
    }

    /// The number of methods filed.
    pub fn len(&self) -> (r: usize)
        ensures
            r == self@.len(),
    {
        self.methods.len()
    }

    /// Files `method` of `class`, replacing a method filed under the same key.
    pub fn push(&mut self, class: Vec<char>, method: RawMethod)
        ensures
            final(self)@ == insert_entry(
                old(self)@,
                raw_method_key(class@, method@),
                (class@, method@),
            ),
    {
        let ghost k = raw_method_key(class@, method@);
        let ghost entries = old(self)@;
        let ghost keys = entries.map_values(|e: (MethodKey, (Seq<char>, RawMethodView))| e.0);
        let mut i: usize = 0;
        while i < self.methods.len()
            invariant
                self.methods@ == old(self).methods@,
                k == raw_method_key(class@, method@),
                entries == working_entries_view(self.methods@),
                keys == entries.map_values(|e: (MethodKey, (Seq<char>, RawMethodView))| e.0),
                keys.len() == self.methods@.len(),
                i <= self.methods@.len(),
                forall|j: int| 0 <= j < i ==> keys[j] != k,
            decreases self.methods@.len() - i,
        {
            let same_class = chars_eq(self.methods[i].0.as_slice(), class.as_slice());
            let same_name = chars_eq(self.methods[i].1.name.as_slice(), method.name.as_slice());
            let same_desc = self.methods[i].1.descriptor.same(&method.descriptor);
            let same = same_class && same_name && same_desc;
            proof {
                let e = self.methods@[i as int];
                assert(same_class == (e.0@ == class@));
                assert(same_name == (e.1.name@ == method.name@));
                assert(same_desc == (e.1.descriptor@ == method.descriptor@));
                assert(raw_method_key(e.0@, e.1@) == (e.0@, e.1.name@, e.1.descriptor@));
                assert(k == (class@, method.name@, method.descriptor@));
                assert(keys[i as int] == (e.0@, e.1.name@, e.1.descriptor@));
                assert(entries[i as int] == (
                    raw_method_key(self.methods@[i as int].0@, self.methods@[i as int].1@),
                    (self.methods@[i as int].0@, self.methods@[i as int].1@),
                ));
                assert(keys[i as int] == entries[i as int].0);
                assert(same == (keys[i as int] == k));
            }
            if same {
                proof {
                    lemma_find_key(keys, k);
                }
                let ghost before = self.methods@;
                self.methods.set(i, (class, method));
                proof {
                    assert(find_key(keys, k) == i);
                    assert(working_entries_view(self.methods@) =~= entries.update(
                        i as int,
                        (k, (self.methods@[i as int].0@, self.methods@[i as int].1@)),
                    ));
                }
                return;
            }
            i = i + 1;
        }
        proof {
            lemma_find_key(keys, k);
        }
        let ghost before = self.methods@;
        self.methods.push((class, method));
        proof {
            assert(working_entries_view(self.methods@) =~= entries.push(
                (k, (self.methods@.last().0@, self.methods@.last().1@)),
            ));
        }
    }

    /// Files each of `methods`, in order.
    pub fn extend(&mut self, methods: Vec<(Vec<char>, RawMethod)>)
        ensures
            final(self)@ == insert_all(old(self)@, working_entries_view(methods@)),
    {
        let mut methods = methods;
        let ghost all = working_entries_view(methods@);
        let ghost start = self@;
        let mut done: usize = 0;
        let n = methods.len();
        assert(all.len() == n);
        while methods.len() > 0
            invariant
                methods@.len() + done == all.len(),
                all.len() <= usize::MAX,
                working_entries_view(methods@) == all.subrange(done as int, all.len() as int),
                self@ == insert_all(start, all.subrange(0, done as int)),
            decreases methods@.len(),
        {
            let ghost rest = methods@;
            assert(done < all.len());
            let (class, method) = methods.remove(0);
            proof {
                assert(methods@ =~= rest.subrange(1, rest.len() as int));
                assert(working_entries_view(rest)[0] == all[done as int]);
                assert(all.subrange(0, done + 1).drop_last() =~= all.subrange(0, done as int));
                assert(working_entries_view(methods@) =~= all.subrange(done + 1, all.len() as int)) by {
                    assert forall|j: int| 0 <= j < methods@.len() implies working_entries_view(
                        methods@,
                    )[j] == all[done + 1 + j] by {
                        assert(methods@[j] == rest[j + 1]);
                        assert(working_entries_view(rest)[j + 1] == all[done + 1 + j]);
                    }
                }
            }
            self.push(class, method);
            done = done + 1;
        }
        assert(all.subrange(0, all.len() as int) =~= all);
    }
}

/// The entries after inserting each of `new` in order.
pub open spec fn insert_all<K, V>(entries: Seq<(K, V)>, new: Seq<(K, V)>) -> Seq<(K, V)>
    decreases new.len(),
{
    if new.len() == 0 {
        entries
    } else {
        insert_entry(insert_all(entries, new.drop_last()), new.last().0, new.last().1)
    }
}

/// The position of the class named `name` among `classes`, or -1.
pub open spec fn class_position(classes: Seq<ClassView>, name: Seq<char>) -> int {
    find_key(classes.map_values(|c: ClassView| c.this), name)
}

/// What changes about a loaded class while the program runs.
pub struct ClassState {
    /// whether the class initializer has been started
    pub initialized: bool,
    /// the words of the static fields
    pub static_data: Vec<u32>,
}

/// The mathematical value of a `ClassState`.
pub struct ClassStateView {
    pub initialized: bool,
    pub static_data: Seq<u32>,
}

impl View for ClassState {
    type V = ClassStateView;

    open spec fn view(&self) -> ClassStateView {
        ClassStateView { initialized: self.initialized, static_data: self.static_data@ }
    }
}

/// The loaded classes, ready for running, each with its changing state.
pub struct SharedClassArea {
    classes: Vec<Arc<Class>>,
    states: Vec<ClassState>,
}

/// The mathematical value of a `SharedClassArea`: the classes, and each
/// one's state at the same position.
pub struct SharedClassAreaView {
    pub classes: Seq<ClassView>,
    pub states: Seq<ClassStateView>,
}

impl View for SharedClassArea {
    type V = SharedClassAreaView;

    closed spec fn view(&self) -> SharedClassAreaView {
        SharedClassAreaView {
            classes: self.classes@.map_values(|c: Arc<Class>| (*c)@),
            states: self.states@.map_values(|s: ClassState| s@),
        }
    }
}

impl SharedClassArea {
    /// Every class has its state.
    pub closed spec fn wf(&self) -> bool {
        self.classes@.len() == self.states@.len()
    }

    /// The position of the class named `class`.
    pub fn position(&self, class: &[char]) -> (r: Option<usize>)
        ensures
            match r {
                Some(i) => class_position(self@.classes, class@) == i && i < self@.classes.len(),
                None => class_position(self@.classes, class@) == -1,
            },
    {
        let ghost names = self@.classes.map_values(|c: ClassView| c.this);
        proof {
            lemma_find_key(names, class@);
        }
        let mut i: usize = 0;
        while i < self.classes.len()
            invariant
                names == self@.classes.map_values(|c: ClassView| c.this),
                names.len() == self.classes@.len(),
                i <= self.classes@.len(),
                forall|j: int| 0 <= j < i ==> names[j] != class@,
            decreases self.classes@.len() - i,
        {
            let same = chars_eq(self.classes[i].this.as_slice(), class);
            assert(names[i as int] == self.classes@[i as int].this@);
            if same {
                proof {
                    lemma_find_key(names, class@);
                    if find_key(names, class@) < i {
                        assert(names[find_key(names, class@)] == class@);
                    }
                }
                return Some(i);
            }
            i = i + 1;
        }
        proof {
            lemma_find_key(names, class@);
            if find_key(names, class@) >= 0 {
                assert(names[find_key(names, class@)] == class@);
            }
        }
        None
    }

    /// In a well-formed area every class has its state.
    pub proof fn lemma_wf(&self)
        requires
            self.wf(),
        ensures
            self@.classes.len() == self@.states.len(),
    {
    }

    /// The number of classes.
    pub fn class_count(&self) -> (r: usize)
        ensures
            r == self@.classes.len(),
    {
        self.classes.len()
    }

    /// The number of classes.
    pub fn len(&self) -> (r: usize)
        requires
            self.wf(),
        ensures
            r == self@.classes.len(),
            r == self@.states.len(),
    {
        self.classes.len()
    }

    /// The class at position `i`.
    pub fn class_at(&self, i: usize) -> (r: Arc<Class>)
        requires
            self.wf(),
            i < self@.classes.len(),
        ensures
            r@ == self@.classes[i as int],
    {
        self.classes[i].clone()
    }

    /// Whether the initializer of the class at position `i` has been started.
    pub fn is_initialized(&self, i: usize) -> (r: bool)
        requires
            self.wf(),
            i < self@.classes.len(),
        ensures
            r == self@.states[i as int].initialized,
    {
        self.states[i].initialized
    }

    /// Marks the initializer of the class at position `i` as started.
    pub fn set_initialized(&mut self, i: usize)
        requires
            old(self).wf(),
            i < old(self)@.classes.len(),
        ensures
            final(self).wf(),
            final(self)@.classes == old(self)@.classes,
            final(self)@.states == old(self)@.states.update(
                i as int,
                ClassStateView { initialized: true, ..old(self)@.states[i as int] },
            ),
    {
        let mut st = self.states.remove(i);
        st.initialized = true;
        self.states.insert(i, st);
        assert(self@.states =~= old(self)@.states.update(
            i as int,
            ClassStateView { initialized: true, ..old(self)@.states[i as int] },
        ));
    }

    /// The static word `k` of the class at position `i`.
    pub fn static_word(&self, i: usize, k: usize) -> (r: Result<u32, Fault>)
        requires
            self.wf(),
            i < self@.classes.len(),
        ensures
            self@.states[i as int].static_data.len() <= usize::MAX,
            k < self@.states[i as int].static_data.len() ==> r == Ok::<u32, Fault>(self@.states[i as int].static_data[k as int]),
            k >= self@.states[i as int].static_data.len() ==> r == Err::<u32, Fault>(Fault::FieldOutOfRange),
    {
        if k < self.states[i].static_data.len() {
            Ok(self.states[i].static_data[k])
        } else {
            Err(Fault::FieldOutOfRange)
        }
    }

    /// Sets the static word `k` of the class at position `i` to `v`.
    pub fn set_static_word(&mut self, i: usize, k: usize, v: u32) -> (r: Result<(), Fault>)
        requires
            old(self).wf(),
            i < old(self)@.classes.len(),
        ensures
            final(self).wf(),
            final(self)@.classes == old(self)@.classes,
            k < old(self)@.states[i as int].static_data.len() ==> r is Ok && final(self)@.states == old(self)@.states.update(
                i as int,
                ClassStateView {
                    static_data: old(self)@.states[i as int].static_data.update(k as int, v),
                    ..old(self)@.states[i as int]
                },
            ),
            k >= old(self)@.states[i as int].static_data.len() ==> r == Err::<(), Fault>(Fault::FieldOutOfRange)
                && final(self)@ == old(self)@,
    {
        if k >= self.states[i].static_data.len() {
            return Err(Fault::FieldOutOfRange);
        }
        let mut st = self.states.remove(i);
        st.static_data.set(k, v);
        self.states.insert(i, st);
        assert(self@.states =~= old(self)@.states.update(
            i as int,
            ClassStateView {
                static_data: old(self)@.states[i as int].static_data.update(k as int, v),
                ..old(self)@.states[i as int]
            },
        ));
        Ok(())
    }

    /// The class named `class`, if it is loaded.
    pub fn search(&self, class: &[char]) -> (r: Option<Arc<Class>>)
        ensures
            match r {
                Some(c) => class_position(self@.classes, class@) >= 0 && c@ == self@.classes[class_position(self@.classes, class@)],
                None => class_position(self@.classes, class@) == -1,
            },
    {
        match self.position(class) {
            Some(i) => {
                assert(self@.classes.len() == self.classes@.len());
                Some(self.classes[i].clone())
            },
            None => None,
        }
    }
}

/// The classes as read, before they are prepared for running, filed by name.
pub struct WorkingClassArea {
    classes: Vec<RawClass>,
}

/// The view of the entries of a working class area: each class under its name.
pub open spec fn raw_entries_view(s: Seq<RawClass>) -> Seq<(Seq<char>, RawClassView)> {
    s.map_values(|c: RawClass| (c@.this, c@))
}

impl View for WorkingClassArea {
    type V = Seq<(Seq<char>, RawClassView)>;

    closed spec fn view(&self) -> Self::V {
        raw_entries_view(self.classes@)
    }
}

impl WorkingClassArea {
    /// An empty area.
    pub fn new() -> (r: WorkingClassArea)
        ensures
            r@ == Seq::<(Seq<char>, RawClassView)>::empty(),
    {
        let r = WorkingClassArea { classes: Vec::new() };
        assert(r@ =~= Seq::<(Seq<char>, RawClassView)>::empty());
        r
    }

    /// The number of classes filed.
    pub fn len(&self) -> (r: usize)
        ensures
            r == self@.len(),
    {
        self.classes.len()
    }

    /// The position of the class named `class`, or `None`.
    fn position(&self, class: &[char]) -> (r: Option<usize>)
        ensures
            match r {
                Some(i) => find_key(self@.map_values(|e: (Seq<char>, RawClassView)| e.0), class@)
                    == i && i < self@.len(),
                None => find_key(self@.map_values(|e: (Seq<char>, RawClassView)| e.0), class@) == -1,
            },
    {
        let ghost keys = self@.map_values(|e: (Seq<char>, RawClassView)| e.0);
        proof {
            lemma_find_key(keys, class@);
        }
        let mut i: usize = 0;
        while i < self.classes.len()
            invariant
                keys == self@.map_values(|e: (Seq<char>, RawClassView)| e.0),
                keys.len() == self.classes@.len(),
                i <= self.classes@.len(),
                forall|j: int| 0 <= j < i ==> keys[j] != class@,
                -1 <= find_key(keys, class@) < keys.len(),
                find_key(keys, class@) >= 0 ==> keys[find_key(keys, class@)] == class@ && forall|
                    j: int,
                | 0 <= j < find_key(keys, class@) ==> keys[j] != class@,
                find_key(keys, class@) == -1 ==> forall|j: int|
                    0 <= j < keys.len() ==> keys[j] != class@,
            decreases self.classes@.len() - i,
        {
            assert(keys[i as int] == self.classes@[i as int].this@);
            if chars_eq(self.classes[i].this.as_slice(), class) {
                return Some(i);
            }
            i = i + 1;
        }
        None
    }

    /// The class named `class`, if it is filed.
    pub fn search(&self, class: &[char]) -> (r: Option<&RawClass>)
        ensures
            match lookup_entry(self@, class@) {
                Some(c) => r matches Some(rc) && rc@ == c,
                None => r is None,
            },
    {
        match self.position(class) {
            Some(i) => {
                assert(self@[i as int].1 == self.classes@[i as int]@);
                Some(&self.classes[i])
            },
            None => None,
        }
    }

    /// Files `class` under its name, replacing a class filed under the same name.
    pub fn push(&mut self, class: RawClass)
        ensures
            final(self)@ == insert_entry(old(self)@, class@.this, class@),
    {
        let ghost keys = self@.map_values(|e: (Seq<char>, RawClassView)| e.0);
        match self.position(class.this.as_slice()) {
            Some(i) => {
                let ghost before = self.classes@;
                self.classes.set(i, class);
                proof {
                    assert(self@ =~= old(self)@.update(i as int, (class@.this, class@)));
                }
            },
            None => {
                let ghost before = self.classes@;
                self.classes.push(class);
                proof {
                    assert(self@ =~= old(self)@.push((class@.this, class@)));
                }
            },
        }
    }

    /// Files each of `classes`, in order.
    pub fn extend(&mut self, classes: Vec<RawClass>)
        ensures
            final(self)@ == insert_all(old(self)@, raw_entries_view(classes@)),
    {
        let mut classes = classes;
        let ghost all = raw_entries_view(classes@);
        let ghost start = self@;
        let mut done: usize = 0;
        let n = classes.len();
        assert(all.len() == n);
        while classes.len() > 0
            invariant
                classes@.len() + done == all.len(),
                all.len() <= usize::MAX,
                raw_entries_view(classes@) == all.subrange(done as int, all.len() as int),
                self@ == insert_all(start, all.subrange(0, done as int)),
            decreases classes@.len(),
        {
            let ghost rest = classes@;
            let c = classes.remove(0);
            proof {
                assert(raw_entries_view(rest)[0] == all[done as int]);
                assert(all.subrange(0, done + 1).drop_last() =~= all.subrange(0, done as int));
                assert(raw_entries_view(classes@) =~= all.subrange(done + 1, all.len() as int)) by {
                    assert forall|j: int| 0 <= j < classes@.len() implies raw_entries_view(
                        classes@,
                    )[j] == all[done + 1 + j] by {
                        assert(classes@[j] == rest[j + 1]);
                        assert(raw_entries_view(rest)[j + 1] == all[done + 1 + j]);
                    }
                }
            }
            self.push(c);
            done = done + 1;
        }
        assert(all.subrange(0, all.len() as int) =~= all);
    }
}

/// A copy of a list of words.
pub fn copy_words(v: &Vec<u32>) -> (r: Vec<u32>)
    ensures
        r@ == v@,
{
    let mut r: Vec<u32> = Vec::new();
    let mut i: usize = 0;
    while i < v.len()
        invariant
            i <= v@.len(),
            r@ =~= v@.subrange(0, i as int),
        decreases v@.len() - i,
    {
        r.push(v[i]);
        i = i + 1;
    }
    assert(v@.subrange(0, v@.len() as int) =~= v@);
    r
}

/// `spec_to_class` for the area `area`.
pub open spec fn to_class_in(area: Seq<(Seq<char>, RawClassView)>) -> spec_fn(RawClassView) -> Result<
    ClassView,
    LoadError,
> {
    |raw: RawClassView| spec_to_class(area, raw)
}

/// The state of a class that has not run yet: not initialized, with its
/// static fields' initial words.
pub open spec fn fresh_state(c: ClassView) -> ClassStateView {
    ClassStateView { initialized: false, static_data: c.static_data }
}

impl WorkingClassArea {
    /// Prepares every class for running, in the order they were filed; fails
    /// with the first class whose superclasses cannot all be found.
    pub fn to_shared(self) -> (r: Result<SharedClassArea, LoadError>)
        ensures
            match traverse(self@.map_values(|e: (Seq<char>, RawClassView)| e.1), to_class_in(self@)) {
                Ok(cs) => r matches Ok(a) && a.wf() && a@.classes == cs && a@.states
                    == cs.map_values(|c: ClassView| fresh_state(c)),
                Err(e) => r matches Err(e2) && e2 == e,
            },
    {
        let ghost area = self@;
        let ghost raws = area.map_values(|e: (Seq<char>, RawClassView)| e.1);
        let ghost f = to_class_in(area);
        let mut all_methods: Vec<Vec<MethodName>> = Vec::new();
        let ghost mut done: Seq<ClassView> = seq![];
        let mut i: usize = 0;
        assert(raws.subrange(0, 0) =~= Seq::<RawClassView>::empty());
        while i < self.classes.len()
            invariant
                area == self@,
                raws == area.map_values(|e: (Seq<char>, RawClassView)| e.1),
                f == to_class_in(area),
                raws.len() == self.classes@.len(),
                i <= self.classes@.len(),
                all_methods@.len() == i,
                done.len() == i,
                forall|j: int|
                    0 <= j < i ==> #[trigger] done[j] == class_with_methods(
                        raws[j],
                        method_names_view(all_methods@[j]@),
                    ),
                traverse(raws.subrange(0, i as int), f) == Ok::<_, LoadError>(done),
            decreases self.classes@.len() - i,
        {
            proof {
                assert(raws.subrange(0, i + 1).drop_last() =~= raws.subrange(0, i as int));
                assert(raws.subrange(0, i + 1).last() == self.classes@[i as int]@);
            }
            match self.classes[i].class_methods(&self) {
                Ok(ms) => {
                    all_methods.push(ms);
                    proof {
                        done = done.push(
                            class_with_methods(raws[i as int], method_names_view(all_methods@[i as int]@)),
                        );
                    }
                },
                Err(e) => {
                    proof {
                        crate::prepare::lemma_traverse_err(raws, f, (i + 1) as nat);
                        assert(raws.subrange(0, raws.len() as int) =~= raws);
                    }
                    return Err(e);
                },
            }
            i = i + 1;
        }
        assert(raws.subrange(0, raws.len() as int) =~= raws);
        let ghost cs = done;
        let ghost am = all_methods@;
        let mut raw_classes = self.classes;
        let ghost rs = raw_classes@;
        let n = raw_classes.len();
        let mut classes: Vec<Arc<Class>> = Vec::new();
        let mut states: Vec<ClassState> = Vec::new();
        let mut k: usize = 0;
        while k < n
            invariant
                n == rs.len(),
                n == am.len(),
                raws == rs.map_values(|c: RawClass| c@),
                cs.len() == n,
                forall|j: int|
                    0 <= j < n ==> #[trigger] cs[j] == class_with_methods(
                        raws[j],
                        method_names_view(am[j]@),
                    ),
                all_methods@ == am.subrange(k as int, n as int),
                raw_classes@ == rs.subrange(k as int, n as int),
                k <= n,
                classes@.len() == k,
                states@.len() == k,
                forall|j: int| 0 <= j < k ==> (*#[trigger] classes@[j])@ == cs[j],
                forall|j: int| 0 <= j < k ==> (#[trigger] states@[j])@ == fresh_state(cs[j]),
            decreases n - k,
        {
            let raw = raw_classes.remove(0);
            let ms = all_methods.remove(0);
            assert(raw == rs[k as int]);
            assert(ms == am[k as int]);
            let c = raw.with_methods(ms);
            let state = ClassState { initialized: false, static_data: copy_words(&c.static_data) };
            classes.push(Arc::new(c));
            states.push(state);
            proof {
                assert(raw_classes@ =~= rs.subrange(k + 1, n as int));
                assert(all_methods@ =~= am.subrange(k + 1, n as int));
            }
            k = k + 1;
        }
        let r = SharedClassArea { classes, states };
        assert(r@.classes =~= cs);
        assert(r@.states =~= cs.map_values(|c: ClassView| fresh_state(c)));
        Ok(r)
    }
}

/// The key of a prepared method of class `c`.
pub open spec fn method_key(c: ClassView, m: MethodView) -> MethodKey {
    (c.this, m.name, m.descriptor)
}

/// The prepared methods of all classes, each with its class, filed by class
/// name, method name and descriptor.
pub struct MethodArea {
    methods: Vec<(Arc<Class>, Arc<Method>)>,
}

/// The view of the entries of a method area.
pub open spec fn method_entries_view(s: Seq<(Arc<Class>, Arc<Method>)>) -> Seq<
    (MethodKey, (ClassView, MethodView)),
> {
    s.map_values(
        |e: (Arc<Class>, Arc<Method>)| (method_key((*e.0)@, (*e.1)@), ((*e.0)@, (*e.1)@)),
    )
}

impl View for MethodArea {
    type V = Seq<(MethodKey, (ClassView, MethodView))>;

    closed spec fn view(&self) -> Self::V {
        method_entries_view(self.methods@)
    }
}

impl MethodArea {
    /// An empty area.
    pub fn new() -> (r: MethodArea)
        ensures
            r@ == Seq::<(MethodKey, (ClassView, MethodView))>::empty(),
    {
        let r = MethodArea { methods: Vec::new() };
        assert(r@ =~= Seq::<(MethodKey, (ClassView, MethodView))>::empty());
        r
    }

    /// The position of the method filed under (`class`, `name`, `descriptor`).
    fn position(&self, class: &[char], name: &[char], descriptor: &MethodDescriptor) -> (r: Option<usize>)
        ensures
            match r {
                Some(i) => find_key(self@.map_values(|e: (MethodKey, (ClassView, MethodView))| e.0), (class@, name@, descriptor@)) == i && i < self@.len(),
                None => find_key(self@.map_values(|e: (MethodKey, (ClassView, MethodView))| e.0), (class@, name@, descriptor@)) == -1,
            },
    {
        let ghost keys = self@.map_values(|e: (MethodKey, (ClassView, MethodView))| e.0);
        let ghost k = (class@, name@, descriptor@);
        proof {
            lemma_find_key(keys, k);
        }
        let mut i: usize = 0;
        while i < self.methods.len()
            invariant
                keys == self@.map_values(|e: (MethodKey, (ClassView, MethodView))| e.0),
                k == (class@, name@, descriptor@),
                keys.len() == self.methods@.len(),
                i <= self.methods@.len(),
                forall|j: int| 0 <= j < i ==> keys[j] != k,
                -1 <= find_key(keys, k) < keys.len(),
                find_key(keys, k) >= 0 ==> keys[find_key(keys, k)] == k && forall|j: int|
                    0 <= j < find_key(keys, k) ==> keys[j] != k,
                find_key(keys, k) == -1 ==> forall|j: int| 0 <= j < keys.len() ==> keys[j] != k,
            decreases self.methods@.len() - i,
        {
            let (c, m) = &self.methods[i];
            assert(keys[i as int] == (c.this@, m.name@, m.descriptor@));
            if chars_eq(c.this.as_slice(), class) && chars_eq(m.name.as_slice(), name) && m.descriptor.same(descriptor) {
                return Some(i);
            }
            i = i + 1;
        }
        None
    }

    /// Files `method` of `class`, replacing a method filed under the same key.
    pub fn push(&mut self, class: Arc<Class>, method: Arc<Method>)
        ensures
            final(self)@ == insert_entry(old(self)@, method_key(class@, method@), (class@, method@)),
    {
        match self.position(class.this.as_slice(), method.name.as_slice(), &method.descriptor) {
            Some(i) => {
                self.methods.set(i, (class, method));
                proof {
                    assert(self@ =~= old(self)@.update(i as int, (method_key(class@, method@), (class@, method@))));
                }
            },
            None => {
                self.methods.push((class, method));
                proof {
                    assert(self@ =~= old(self)@.push((method_key(class@, method@), (class@, method@))));
                }
            },
        }
    }

    /// Files each of `methods`, in order.
    pub fn extend(&mut self, methods: Vec<(Arc<Class>, Arc<Method>)>)
        ensures
            final(self)@ == insert_all(old(self)@, method_entries_view(methods@)),
    {
        let mut methods = methods;
        let ghost all = method_entries_view(methods@);
        let ghost start = self@;
        let mut done: usize = 0;
        let n = methods.len();
        assert(all.len() == n);
        while methods.len() > 0
            invariant
                methods@.len() + done == all.len(),
                all.len() <= usize::MAX,
                method_entries_view(methods@) == all.subrange(done as int, all.len() as int),
                self@ == insert_all(start, all.subrange(0, done as int)),
            decreases methods@.len(),
        {
            let ghost rest = methods@;
            let (c, m) = methods.remove(0);
            proof {
                assert(method_entries_view(rest)[0] == all[done as int]);
                assert(all.subrange(0, done + 1).drop_last() =~= all.subrange(0, done as int));
                assert(method_entries_view(methods@) =~= all.subrange(done + 1, all.len() as int)) by {
                    assert forall|j: int| 0 <= j < methods@.len() implies method_entries_view(
                        methods@,
                    )[j] == all[done + 1 + j] by {
                        assert(methods@[j] == rest[j + 1]);
                        assert(method_entries_view(rest)[j + 1] == all[done + 1 + j]);
                    }
                }
            }
            self.push(c, m);
            done = done + 1;
        }
        assert(all.subrange(0, all.len() as int) =~= all);
    }

    /// The method filed under (`class`, `method`, `method_type`), with its class.
    pub fn search(&self, class: &[char], method: &[char], method_type: &MethodDescriptor) -> (r: Option<
        (Arc<Class>, Arc<Method>),
    >)
        ensures
            match lookup_entry(self@, (class@, method@, method_type@)) {
                Some((c, m)) => r matches Some((rc, rm)) && rc@ == c && rm@ == m,
                None => r is None,
            },
    {
        match self.position(class, method, method_type) {
            Some(i) => {
                let (c, m) = &self.methods[i];
                assert(self@[i as int].1 == (c@, m@));
                Some((c.clone(), m.clone()))
            },
            None => None,
        }
    }

    /// This area, to be shared.
    pub fn to_shared(self) -> (r: Arc<MethodArea>)
        ensures
            r@ == self@,
    {
        Arc::new(self)
    }
}

/// A working-area entry with its method prepared for running, given the
/// class area: its class is looked up by name, and the method is prepared with
/// that class's constant pool.
#[verifier::opaque]
pub open spec fn spec_cook_entry(
    area: SharedClassAreaView,
    e: (MethodKey, (Seq<char>, RawMethodView)),
) -> Result<(MethodKey, (ClassView, MethodView)), LoadError> {
    let c = class_position(area.classes, e.1.0);
    if c < 0 {
        Err(LoadError::ClassNotFound)
    } else {
        match spec_cook(area, area.classes[c].constants, e.1.1) {
            Ok(m) => Ok((e.0, (area.classes[c], m))),
            Err(err) => Err(err),
        }
    }
}

/// `spec_cook_entry` for the class area `area`.
pub open spec fn cook_entry_in(area: SharedClassAreaView) -> spec_fn(
    (MethodKey, (Seq<char>, RawMethodView)),
) -> Result<(MethodKey, (ClassView, MethodView)), LoadError> {
    |e: (MethodKey, (Seq<char>, RawMethodView))| spec_cook_entry(area, e)
}

/// Dropping the first entry of a working area's list drops the first of its view.
proof fn lemma_working_drop_first(rest: Seq<(Vec<char>, RawMethod)>, after: Seq<(Vec<char>, RawMethod)>)
    requires
        rest.len() > 0,
        after == rest.subrange(1, rest.len() as int),
    ensures
        working_entries_view(after) == working_entries_view(rest).subrange(1, rest.len() as int),
{
    assert(working_entries_view(after) =~= working_entries_view(rest).subrange(1, rest.len() as int));
}

/// Prepares one method of a working area for running (see `spec_cook_entry`).
fn cook_entry(class_area: &SharedClassArea, class_name: Vec<char>, method: RawMethod) -> (r: Result<
    (Arc<Class>, Arc<Method>),
    LoadError,
>)
    ensures
        match spec_cook_entry(
            class_area@,
            (raw_method_key(class_name@, method@), (class_name@, method@)),
        ) {
            Ok(e) => r matches Ok((c, m)) && e == (method_key(c@, m@), (c@, m@)),
            Err(e) => r matches Err(e2) && e2 == e,
        },
{
    proof {
        reveal(spec_cook_entry);
    }
    let class = match class_area.search(class_name.as_slice()) {
        Some(c) => c,
        None => {
            return Err(LoadError::ClassNotFound);
        },
    };
    let cooked = method.cook(class_area, class.constants.as_slice())?;
    proof {
        let c = class_position(class_area@.classes, class_name@);
        let names = class_area@.classes.map_values(|cv: ClassView| cv.this);
        lemma_find_key(names, class_name@);
        assert(names[c] == class_area@.classes[c].this);
    }
    Ok((class, Arc::new(cooked)))
}

impl WorkingMethodArea {
    /// Prepares every method for running, in the order they were filed; fails
    /// with the first method whose class is not loaded or whose code is
    /// refused.
    #[verifier::rlimit(60)]
    pub fn to_shared(self, class_area: &SharedClassArea) -> (r: Result<MethodArea, LoadError>)
        ensures
            match traverse(self@, cook_entry_in(class_area@)) {
                Ok(es) => r matches Ok(a) && a@ == es,
                Err(e) => r matches Err(e2) && e2 == e,
            },
    {
        let ghost all = self@;
        let ghost f = cook_entry_in(class_area@);
        let mut entries = self.methods;
        let n = entries.len();
        let mut out: Vec<(Arc<Class>, Arc<Method>)> = Vec::new();
        let mut k: usize = 0;
        assert(all.subrange(0, 0) =~= Seq::<(MethodKey, (Seq<char>, RawMethodView))>::empty());
        assert(method_entries_view(out@) =~= Seq::<(MethodKey, (ClassView, MethodView))>::empty());
        while k < n
            invariant
                all == self@,
                all.len() == n,
                f == cook_entry_in(class_area@),
                k <= n,
                entries@.len() == n - k,
                working_entries_view(entries@) == all.subrange(k as int, n as int),
                traverse(all.subrange(0, k as int), f) == Ok::<_, LoadError>(method_entries_view(out@)),
            decreases n - k,
        {
            let ghost rest = entries@;
            assert(working_entries_view(rest)[0] == all[k as int]);
            let (class_name, method) = entries.remove(0);
            proof {
                lemma_working_drop_first(rest, entries@);
                assert(all.subrange(k as int, n as int).subrange(1, (n - k) as int) =~= all.subrange(k + 1, n as int));
                assert(all.subrange(0, k + 1).drop_last() =~= all.subrange(0, k as int));
                assert(all.subrange(0, k + 1).last() == all[k as int]);
                assert(all[k as int] == (raw_method_key(class_name@, method@), (class_name@, method@)));
            }
            let ghost e0 = all[k as int];
            assert(f(e0) == spec_cook_entry(class_area@, e0));
            match cook_entry(class_area, class_name, method) {
                Ok(entry) => {
                    let ghost before = out@;
                    out.push(entry);
                    proof {
                        assert(method_entries_view(out@) =~= method_entries_view(before).push(
                            method_entries_view(out@).last(),
                        ));
                    }
                },
                Err(e) => {
                    proof {
                        assert(all.subrange(0, k + 1).last() == e0);
                        assert(f(e0) == Err::<(MethodKey, (ClassView, MethodView)), LoadError>(e));
                        assert(traverse(all.subrange(0, k + 1), f) == Err::<Seq<(MethodKey, (ClassView, MethodView))>, LoadError>(e));
                        crate::prepare::lemma_traverse_err(all, f, (k + 1) as nat);
                    }
                    return Err(e);
                },
            }
            k = k + 1;
        }
        assert(all.subrange(0, n as int) =~= all);
        Ok(MethodArea { methods: out })
    }
}

} // verus!
