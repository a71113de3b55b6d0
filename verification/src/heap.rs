//! The heap: objects by reference, their reference counts, and the string
//! objects kept for each distinct string.
use vstd::prelude::*;

use crate::class::FieldTypeView;
use crate::data::{class_position, find_key, insert_entry, lemma_find_key, lookup_entry, SharedClassArea, HEAP_START, NULL};
use crate::error::{Error, ErrorView, Fault};
use crate::class::ClassView;
use crate::raw_class::FieldView;
use crate::object::{is_array1, is_array2, native_fields_view, NativeField, NativeFieldView, Object, ObjectView};
use crate::text::chars_eq;

verus! {

/// The name of the string class, `java/lang/String`.
pub open spec fn string_name() -> Seq<char> {
    seq!['j', 'a', 'v', 'a', '/', 'l', 'a', 'n', 'g', '/', 'S', 't', 'r', 'i', 'n', 'g']
}

/// The name `java/lang/String`.
pub fn string_class_name() -> (r: Vec<char>)
    ensures
        r@ == string_name(),
{
    let r = vec!['j', 'a', 'v', 'a', '/', 'l', 'a', 'n', 'g', '/', 'S', 't', 'r', 'i', 'n', 'g'];
    assert(r@ =~= string_name());
    r
}

/// A string object holding the characters `s`.
pub open spec fn string_object(s: Seq<char>) -> ObjectView {
    ObjectView { fields: seq![], native_fields: seq![NativeFieldView::Str(s)], class: string_name() }
}

/// A new string object holding `chars`.
pub fn new_string_object(chars: Vec<char>) -> (r: Object)
    ensures
        r@ == string_object(chars@),
{
    let ghost c = chars@;
    let r = Object { class: string_class_name(), fields: Vec::new(), native_fields: vec![NativeField::Str(chars)] };
    assert(r@.native_fields =~= seq![NativeFieldView::Str(c)]);
    assert(r@.fields =~= Seq::<u32>::empty());
    r
}

/// The objects on the heap, their reference counts, and the string object
/// kept for each distinct string.
pub struct Heap {
    contents: Vec<Option<Object>>,
    refcounts: Vec<u32>,
    string_cache: Vec<(Vec<char>, u32)>,
    class_cache: Vec<(Vec<char>, u32)>,
}

/// The mathematical value of a `Heap`: slot `i` is the object with reference
/// `HEAP_START + i`, or nothing once it is freed.
pub struct HeapView {
    pub contents: Seq<Option<ObjectView>>,
    pub refcounts: Seq<u32>,
    pub strings: Seq<(Seq<char>, u32)>,
    /// the `java/lang/Class` object made for each class name
    pub class_objects: Seq<(Seq<char>, u32)>,
}

/// The view of each slot of the heap.
pub open spec fn slots_view(s: Seq<Option<Object>>) -> Seq<Option<ObjectView>> {
    s.map_values(|o: Option<Object>| match o {
        Some(x) => Some(x@),
        None => None,
    })
}

/// The view of the string cache.
pub open spec fn strings_view(s: Seq<(Vec<char>, u32)>) -> Seq<(Seq<char>, u32)> {
    s.map_values(|e: (Vec<char>, u32)| (e.0@, e.1))
}

impl View for Heap {
    type V = HeapView;

    closed spec fn view(&self) -> HeapView {
        HeapView {
            contents: slots_view(self.contents@),
            refcounts: self.refcounts@,
            strings: strings_view(self.string_cache@),
            class_objects: strings_view(self.class_cache@),
        }
    }
}

/// The slot of the reference `ptr`, or -1 when it names no slot.
pub open spec fn slot_of(h: HeapView, ptr: int) -> int {
    if ptr >= HEAP_START && ptr - HEAP_START < h.contents.len() {
        ptr - HEAP_START
    } else {
        -1
    }
}

/// The object that the reference `ptr` names, if it is live.
pub open spec fn object_at(h: HeapView, ptr: int) -> Option<ObjectView> {
    let i = slot_of(h, ptr);
    if i >= 0 {
        h.contents[i]
    } else {
        None
    }
}

/// The number of live objects.
pub open spec fn live_count(s: Seq<Option<ObjectView>>) -> nat
    decreases s.len(),
{
    if s.len() == 0 {
        0
    } else {
        live_count(s.drop_last()) + if s.last() is Some {
            1nat
        } else {
            0nat
        }
    }
}

/// Freeing a live slot lowers the number of live objects by one.
pub proof fn lemma_free_slot(s: Seq<Option<ObjectView>>, i: int)
    requires
        0 <= i < s.len(),
        s[i] is Some,
    ensures
        live_count(s.update(i, None)) + 1 == live_count(s),
    decreases s.len(),
{
    let t = s.update(i, None);
    if i < s.len() - 1 {
        assert(t.drop_last() =~= s.drop_last().update(i, None));
        lemma_free_slot(s.drop_last(), i);
    } else {
        assert(t.drop_last() =~= s.drop_last());
    }
}

/// `new` may be reached from `old` by decrementing counts and freeing
/// objects: the slots stay, no count rises, a live object is the one that was
/// there, and strings only leave the cache.
pub open spec fn shrinks(old: HeapView, new: HeapView) -> bool {
    &&& new.contents.len() == old.contents.len()
    &&& new.refcounts.len() == old.refcounts.len()
    &&& forall|i: int| 0 <= i < new.refcounts.len() ==> #[trigger] new.refcounts[i] <= old.refcounts[i]
    &&& forall|i: int| 0 <= i < new.contents.len() && (#[trigger] new.contents[i]) is Some ==> new.contents[i] == old.contents[i]
    &&& forall|j: int| 0 <= j < new.strings.len() ==> old.strings.contains(#[trigger] new.strings[j])
    &&& new.class_objects == old.class_objects
}

/// The heap after counting one more reference to `ptr`: nothing changes for
/// null; a reference that names no slot, or a count at its limit, is a fault.
pub open spec fn spec_inc_ref(h: HeapView, ptr: u32) -> Result<HeapView, Fault> {
    if ptr == NULL {
        Ok(h)
    } else {
        let i = slot_of(h, ptr as int);
        if i < 0 {
            Err(Fault::NullPointer)
        } else if h.refcounts[i] == u32::MAX {
            Err(Fault::Overflow)
        } else {
            Ok(HeapView { refcounts: h.refcounts.update(i, (h.refcounts[i] + 1) as u32), ..h })
        }
    }
}

/// The heap after asking for the string object of `s`, and its reference:
/// the one kept for `s`, or a new one with a count of 0, then kept.
pub open spec fn spec_allocate_str(h: HeapView, s: Seq<char>) -> (HeapView, u32) {
    match lookup_entry(h.strings, s) {
        Some(i) => (h, i),
        None => {
            let p = ((h.contents.len() + HEAP_START) % 0x1_0000_0000) as u32;
            (
                HeapView {
                    contents: h.contents.push(Some(string_object(s))),
                    refcounts: h.refcounts.push(0),
                    strings: insert_entry(h.strings, s, p),
                    class_objects: h.class_objects,
                },
                p,
            )
        },
    }
}

impl Heap {
    /// Every object has its count.
    pub closed spec fn wf(&self) -> bool {
        self.contents@.len() == self.refcounts@.len()
    }

    /// An empty heap.
    pub fn new() -> (r: Heap)
        ensures
            r.wf(),
            r@.contents.len() == 0,
            r@.refcounts.len() == 0,
            r@.strings.len() == 0,
            r@.class_objects.len() == 0,
    {
        Heap { contents: Vec::new(), refcounts: Vec::new(), string_cache: Vec::new(), class_cache: Vec::new() }
    }

    /// The `java/lang/Class` object kept for the class named `name`, if any.
    pub fn class_object(&self, name: &[char]) -> (r: Option<u32>)
        ensures
            r == lookup_entry(self@.class_objects, name@),
    {
        match cache_position(&self.class_cache, name) {
            Some(i) => {
                assert(strings_view(self.class_cache@)[i as int].1 == self.class_cache@[i as int].1);
                Some(self.class_cache[i].1)
            },
            None => None,
        }
    }

    /// Keeps `p` as the `java/lang/Class` object of the class named `name`.
    pub fn remember_class_object(&mut self, name: Vec<char>, p: u32)
        requires
            old(self).wf(),
        ensures
            final(self).wf(),
            final(self)@ == (HeapView {
                class_objects: insert_entry(old(self)@.class_objects, name@, p),
                ..old(self)@
            }),
    {
        let ghost before = self.class_cache@;
        match cache_position(&self.class_cache, name.as_slice()) {
            Some(i) => {
                self.class_cache.set(i, (name, p));
                proof {
                    assert(strings_view(self.class_cache@) =~= strings_view(before).update(i as int, (name@, p)));
                }
            },
            None => {
                self.class_cache.push((name, p));
                proof {
                    assert(strings_view(self.class_cache@) =~= strings_view(before).push((name@, p)));
                }
            },
        }
    }

    /// The number of slots, live or freed.
    pub fn len(&self) -> (r: usize)
        ensures
            r == self@.contents.len(),
    {
        self.contents.len()
    }

    /// The slot of `ptr`.
    fn slot(&self, ptr: u32) -> (r: Option<usize>)
        ensures
            match r {
                Some(i) => slot_of(self@, ptr as int) == i && i < self.contents@.len(),
                None => slot_of(self@, ptr as int) == -1,
            },
    {
        if ptr < HEAP_START {
            return None;
        }
        let i = (ptr - HEAP_START) as usize;
        if i < self.contents.len() {
            Some(i)
        } else {
            None
        }
    }

    /// The object that `idx` names, if it is live.
    pub fn get(&self, idx: usize) -> (r: Option<&Object>)
        ensures
            match object_at(self@, idx as int) {
                Some(o) => r matches Some(x) && x@ == o,
                None => r is None,
            },
    {
        if idx < HEAP_START as usize {
            return None;
        }
        let i = idx - HEAP_START as usize;
        if i >= self.contents.len() {
            return None;
        }
        match &self.contents[i] {
            Some(o) => Some(o),
            None => None,
        }
    }

    /// Puts `obj` on the heap with a count of 0, and gives its reference.
    pub fn allocate(&mut self, obj: Object) -> (r: u32)
        requires
            old(self).wf(),
        ensures
            final(self).wf(),
            final(self)@.contents == old(self)@.contents.push(Some(obj@)),
            final(self)@.refcounts == old(self)@.refcounts.push(0),
            final(self)@.strings == old(self)@.strings,
            final(self)@.class_objects == old(self)@.class_objects,
            r as int == (old(self)@.contents.len() + HEAP_START) % 0x1_0000_0000,
    {
        let ghost o = obj@;
        self.contents.push(Some(obj));
        self.refcounts.push(0);
        proof {
            assert(slots_view(self.contents@) =~= slots_view(old(self).contents@).push(Some(o)));
        }
        let n = (self.contents.len() - 1) as u64;
        #[verifier::truncate]
        let low = n as u32;
        assert(low == n % 0x1_0000_0000) by (bit_vector)
            requires
                low == n as u32,
        ;
        low.wrapping_add(HEAP_START)
    }

    /// The reference of the string object for `string`: the one kept for it
    /// if there is one, else a new one, which is then kept.
    pub fn allocate_str(&mut self, string: Vec<char>) -> (r: u32)
        requires
            old(self).wf(),
        ensures
            final(self).wf(),
            match lookup_entry(old(self)@.strings, string@) {
                Some(i) => r == i && final(self)@ == old(self)@,
                None => final(self)@.contents == old(self)@.contents.push(Some(string_object(string@)))
                    && final(self)@.refcounts == old(self)@.refcounts.push(0)
                    && r as int == (old(self)@.contents.len() + HEAP_START) % 0x1_0000_0000
                    && final(self)@.strings == insert_entry(old(self)@.strings, string@, r),
            },
            (final(self)@, r) == spec_allocate_str(old(self)@, string@),
    {
        let ghost sv = strings_view(self.string_cache@);
        let ghost keys = sv.map_values(|e: (Seq<char>, u32)| e.0);
        proof {
            lemma_find_key(keys, string@);
        }
        let mut i: usize = 0;
        while i < self.string_cache.len()
            invariant
                self.contents@.len() == self.refcounts@.len(),
                sv == strings_view(self.string_cache@),
                keys == sv.map_values(|e: (Seq<char>, u32)| e.0),
                keys.len() == self.string_cache@.len(),
                i <= self.string_cache@.len(),
                forall|j: int| 0 <= j < i ==> keys[j] != string@,
                -1 <= find_key(keys, string@) < keys.len(),
                find_key(keys, string@) >= 0 ==> keys[find_key(keys, string@)] == string@ && forall|
                    j: int,
                | 0 <= j < find_key(keys, string@) ==> keys[j] != string@,
                find_key(keys, string@) == -1 ==> forall|j: int|
                    0 <= j < keys.len() ==> keys[j] != string@,
            decreases self.string_cache@.len() - i,
        {
            assert(keys[i as int] == self.string_cache@[i as int].0@);
            if chars_eq(self.string_cache[i].0.as_slice(), string.as_slice()) {
                assert(sv[i as int].1 == self.string_cache@[i as int].1);
                return self.string_cache[i].1;
            }
            i = i + 1;
        }
        let copy = crate::text::copy_chars(&string);
        let idx = self.allocate(new_string_object(copy));
        let ghost before = self.string_cache@;
        self.string_cache.push((string, idx));
        proof {
            assert(strings_view(self.string_cache@) =~= strings_view(before).push((string@, idx)));
        }
        idx
    }

    /// Counts one more reference to `ptr` (nothing for null); see `spec_inc_ref`.
    pub fn inc_ref(&mut self, ptr: u32) -> (r: Result<(), Fault>)
        requires
            old(self).wf(),
        ensures
            final(self).wf(),
            match spec_inc_ref(old(self)@, ptr) {
                Ok(h) => r is Ok && final(self)@ == h,
                Err(f) => r == Err::<(), Fault>(f) && final(self)@ == old(self)@,
            },
    {
        if ptr == NULL {
            return Ok(());
        }
        let i = match self.slot(ptr) {
            Some(i) => i,
            None => {
                return Err(Fault::NullPointer);
            },
        };
        if self.refcounts[i] == u32::MAX {
            return Err(Fault::Overflow);
        }
        let c = self.refcounts[i] + 1;
        self.refcounts.set(i, c);
        Ok(())
    }
}

/// Reaching `c` from `b` and `b` from `a` by shrinking reaches `c` from `a`.
pub proof fn lemma_shrinks_trans(a: HeapView, b: HeapView, c: HeapView)
    requires
        shrinks(a, b),
        shrinks(b, c),
    ensures
        shrinks(a, c),
{
    assert forall|i: int| 0 <= i < c.contents.len() && (#[trigger] c.contents[i]) is Some implies c.contents[i] == a.contents[i] by {
        assert(c.contents[i] == b.contents[i]);
    }
    assert forall|j: int| 0 <= j < c.strings.len() implies a.strings.contains(#[trigger] c.strings[j]) by {
        let k = choose|k: int| 0 <= k < b.strings.len() && b.strings[k] == c.strings[j];
        assert(a.strings.contains(b.strings[k]));
    }
}

/// A slot freed with a count of 0 and no string stays so while the heap shrinks.
pub proof fn lemma_freed_stays(a: HeapView, b: HeapView, ptr: u32, i: int)
    requires
        shrinks(a, b),
        0 <= i < a.contents.len(),
        a.refcounts.len() == a.contents.len(),
        a.refcounts[i] == 0,
        a.contents[i] is None,
        forall|j: int| 0 <= j < a.strings.len() ==> (#[trigger] a.strings[j]).1 != ptr,
    ensures
        b.refcounts[i] == 0,
        b.contents[i] is None,
        forall|j: int| 0 <= j < b.strings.len() ==> (#[trigger] b.strings[j]).1 != ptr,
{
    assert(b.refcounts[i] <= a.refcounts[i]);
    assert forall|j: int| 0 <= j < b.strings.len() implies (#[trigger] b.strings[j]).1 != ptr by {
        assert(a.strings.contains(b.strings[j]));
    }
}

/// Every heap reaches itself.
pub proof fn lemma_shrinks_refl(a: HeapView)
    ensures
        shrinks(a, a),
{
    assert forall|j: int| 0 <= j < a.strings.len() implies a.strings.contains(#[trigger] a.strings[j]) by {}
}

/// The position of the entry for `name` among named references.
fn cache_position(cache: &Vec<(Vec<char>, u32)>, name: &[char]) -> (r: Option<usize>)
    ensures
        match r {
            Some(i) => find_key(strings_view(cache@).map_values(|e: (Seq<char>, u32)| e.0), name@) == i
                && i < cache@.len(),
            None => find_key(strings_view(cache@).map_values(|e: (Seq<char>, u32)| e.0), name@) == -1,
        },
{
    let ghost keys = strings_view(cache@).map_values(|e: (Seq<char>, u32)| e.0);
    proof {
        lemma_find_key(keys, name@);
    }
    let mut i: usize = 0;
    while i < cache.len()
        invariant
            keys == strings_view(cache@).map_values(|e: (Seq<char>, u32)| e.0),
            keys.len() == cache@.len(),
            i <= cache@.len(),
            forall|j: int| 0 <= j < i ==> keys[j] != name@,
            -1 <= find_key(keys, name@) < keys.len(),
            find_key(keys, name@) >= 0 ==> keys[find_key(keys, name@)] == name@ && forall|j: int|
                0 <= j < find_key(keys, name@) ==> keys[j] != name@,
            find_key(keys, name@) == -1 ==> forall|j: int| 0 <= j < keys.len() ==> keys[j] != name@,
        decreases cache@.len() - i,
    {
        assert(keys[i as int] == cache@[i as int].0@);
        if chars_eq(cache[i].0.as_slice(), name) {
            return Some(i);
        }
        i = i + 1;
    }
    None
}

impl Heap {
    /// Drops from the string cache every string kept as the object `ptr`.
    fn forget_string(&mut self, ptr: u32)
        requires
            old(self).wf(),
        ensures
            final(self).wf(),
            shrinks(old(self)@, final(self)@),
            final(self)@.contents == old(self)@.contents,
            final(self)@.refcounts == old(self)@.refcounts,
            forall|j: int| 0 <= j < final(self)@.strings.len() ==> (#[trigger] final(self)@.strings[j]).1 != ptr,
            final(self)@.strings == forget(old(self)@.strings, ptr),
            final(self)@.class_objects == old(self)@.class_objects,
    {
        let mut kept: Vec<(Vec<char>, u32)> = Vec::new();
        let mut old_cache: Vec<(Vec<char>, u32)> = Vec::new();
        std::mem::swap(&mut old_cache, &mut self.string_cache);
        let ghost all = strings_view(old_cache@);
        let ghost cache0 = old_cache@;
        let n = old_cache.len();
        let mut k: usize = 0;
        while k < n
            invariant
                n == cache0.len(),
                all == strings_view(cache0),
                k <= n,
                old_cache@ == cache0.subrange(k as int, n as int),
                forall|j: int| 0 <= j < kept@.len() ==> all.contains(#[trigger] strings_view(kept@)[j]),
                forall|j: int| 0 <= j < kept@.len() ==> (#[trigger] strings_view(kept@)[j]).1 != ptr,
                strings_view(kept@) == forget(all.subrange(0, k as int), ptr),
            decreases n - k,
        {
            proof {
                reveal(Seq::filter);
                let s1 = all.subrange(0, k + 1);
                assert(s1.drop_last() =~= all.subrange(0, k as int));
                assert(s1.last() == all[k as int]);
                assert(forget(s1, ptr) == (if s1.last().1 != ptr {
                    forget(s1.drop_last(), ptr).push(s1.last())
                } else {
                    forget(s1.drop_last(), ptr)
                }));
            }
            let e = old_cache.remove(0);
            assert(e == cache0[k as int]);
            assert(all[k as int] == (e.0@, e.1));
            if e.1 != ptr {
                let ghost before = kept@;
                kept.push(e);
                assert(strings_view(kept@) =~= strings_view(before).push(all[k as int]));
                proof {
                    assert forall|j: int| 0 <= j < kept@.len() implies all.contains(#[trigger] strings_view(kept@)[j]) by {
                        if j < before.len() {
                            assert(strings_view(kept@)[j] == strings_view(before)[j]);
                        } else {
                            assert(strings_view(kept@)[j] == all[k as int]);
                        }
                    }
                    assert forall|j: int| 0 <= j < kept@.len() implies (#[trigger] strings_view(kept@)[j]).1 != ptr by {
                        if j < before.len() {
                            assert(strings_view(kept@)[j] == strings_view(before)[j]);
                        }
                    }
                }
            }
            proof {
                assert(old_cache@ =~= cache0.subrange(k + 1, n as int));
            }
            k = k + 1;
        }
        assert(all.subrange(0, n as int) =~= all);
        self.string_cache = kept;
        assert(self.contents@ == old(self).contents@);
    }

    /// The references held by `obj`: the words of the reference-typed fields
    /// of its class, in the class's order, then, for an array of references,
    /// its elements.
    fn references_of(obj: &Object, class_area: &SharedClassArea) -> (r: Result<Vec<u32>, Error>)
        ensures
            match references(obj@, class_area@.classes) {
                Ok(s) => r matches Ok(v) && v@ == s,
                Err(e) => r matches Err(er) && er@ == e,
            },
    {
        let class = match class_area.search(obj.class.as_slice()) {
            Some(c) => c,
            None => {
                return Err(Error::class_resolution(&obj.class));
            },
        };
        let ghost fs = class@.fields;
        let mut out: Vec<u32> = Vec::new();
        let mut i: usize = 0;
        while i < class.fields.len()
            invariant
                i <= class.fields@.len(),
                fs == class@.fields,
                fs.len() == class.fields@.len(),
                class_position(class_area@.classes, obj@.class) >= 0,
                fs == class_area@.classes[class_position(class_area@.classes, obj@.class)].fields,
                field_refs(fs.subrange(0, i as int), obj@.fields) == Ok::<Seq<u32>, Fault>(out@),
            decreases class.fields@.len() - i,
        {
            let (field, at) = &class.fields[i];
            proof {
                assert(fs.subrange(0, i + 1).drop_last() =~= fs.subrange(0, i as int));
                assert(fs[i as int] == (field@, *at));
            }
            if field.descriptor.is_reference() {
                if *at >= obj.fields.len() {
                    proof {
                        let s1 = fs.subrange(0, i + 1);
                        assert(s1.last() == fs[i as int]);
                        assert(field_refs(s1, obj@.fields) == Err::<Seq<u32>, Fault>(Fault::FieldOutOfRange));
                        lemma_field_refs_fail(fs, obj@.fields, (i + 1) as nat);
                    }
                    return Err(Error::Misc(Fault::FieldOutOfRange));
                }
                out.push(obj.fields[*at]);
            }
            i = i + 1;
        }
        assert(fs.subrange(0, i as int) =~= fs);
        let ghost base = out@;
        if let Ok(arr) = crate::object::Array1::extract(obj) {
            if arr.arr_type.is_reference() {
                let mut j: usize = 0;
                while j < arr.contents.len()
                    invariant
                        j <= arr.contents@.len(),
                        out@ == base + arr.contents@.subrange(0, j as int),
                    decreases arr.contents@.len() - j,
                {
                    out.push(arr.contents[j]);
                    j = j + 1;
                    assert(out@ =~= base + arr.contents@.subrange(0, j as int));
                }
                assert(arr.contents@.subrange(0, j as int) =~= arr.contents@);
            }
        }
        Ok(out)
    }

    /// Counts one reference fewer to `ptr` (nothing for null). An object
    /// whose count reaches zero is freed and its string forgotten, and every
    /// reference it held (see `references_of`) loses one count in turn.
    pub fn dec_ref(&mut self, ptr: u32, class_area: &SharedClassArea) -> (r: Result<(), Error>)
        requires
            old(self).wf(),
        ensures
            final(self).wf(),
            shrinks(old(self)@, final(self)@),
            ptr == NULL ==> r is Ok && final(self)@ == old(self)@,
            ptr != NULL && slot_of(old(self)@, ptr as int) < 0 ==> (r matches Err(Error::Misc(f)) && f
                == Fault::NullPointer) && final(self)@ == old(self)@,
            ptr != NULL && slot_of(old(self)@, ptr as int) >= 0 ==> {
                let i = slot_of(old(self)@, ptr as int);
                let c = old(self)@.refcounts[i];
                if c == 0 {
                    (r matches Err(Error::Misc(f)) && f == Fault::RefCountUnderflow) && final(self)@ == old(self)@
                } else if c > 1 {
                    r is Ok && final(self)@ == (HeapView {
                        refcounts: old(self)@.refcounts.update(i, (c - 1) as u32),
                        ..old(self)@
                    })
                } else {
                    final(self)@.refcounts[i] == 0 && final(self)@.contents[i] is None
                        && forall|j: int| 0 <= j < final(self)@.strings.len() ==> (#[trigger] final(self)@.strings[j]).1 != ptr
                }
            },
            match release_all(old(self)@, class_area@.classes, seq![ptr]) {
                Ok(h) => r is Ok && final(self)@ == h,
                Err(e) => r matches Err(er) && er@ == e,
            },
    {
        proof {
            let one = seq![ptr];
            assert(one.drop_last() =~= Seq::<u32>::empty());
            assert(one.last() == ptr);
            match release_step(old(self)@, class_area@.classes, ptr) {
                Ok((h2, more)) => {
                    assert(one.drop_last() + more =~= more);
                },
                Err(_) => {},
            }
        }
        proof {
            lemma_shrinks_refl(self@);
        }
        if ptr == NULL {
            assert(release_all(self@, class_area@.classes, Seq::<u32>::empty()) == Ok::<HeapView, ErrorView>(self@));
            return Ok(());
        }
        let i = match self.slot(ptr) {
            Some(i) => i,
            None => {
                return Err(Error::Misc(Fault::NullPointer));
            },
        };
        if self.refcounts[i] == 0 {
            return Err(Error::Misc(Fault::RefCountUnderflow));
        }
        let c = self.refcounts[i] - 1;
        self.refcounts.set(i, c);
        if c > 0 {
            proof {
                let hc = HeapView { refcounts: old(self)@.refcounts.update(i as int, c), ..old(self)@ };
                assert(self@ == hc);
                assert(release_step(old(self)@, class_area@.classes, ptr) == Ok::<(HeapView, Seq<u32>), ErrorView>((hc, Seq::<u32>::empty())));
                assert(release_all(hc, class_area@.classes, Seq::<u32>::empty()) == Ok::<HeapView, ErrorView>(hc));
            }
            return Ok(());
        }
        let ghost h0 = self@;
        self.forget_string(ptr);
        let ghost h1 = self@;
        proof {
            lemma_shrinks_trans(old(self)@, h0, h1);
        }
        let taken = self.contents.remove(i);
        self.contents.insert(i, None);
        let ghost h2 = self@;
        proof {
            assert(self@.contents =~= h1.contents.update(i as int, None));
            lemma_shrinks_trans(old(self)@, h1, h2);
        }
        let mut pending = match taken {
            Some(obj) => match Self::references_of(&obj, class_area) {
                Ok(refs) => refs,
                Err(e) => {
                    return Err(e);
                },
            },
            None => {
                proof {
                    assert(h1.contents[i as int] is None);
                    assert(h2.contents =~= h1.contents);
                    assert(h2 == h1);
                    assert(release_all(h1, class_area@.classes, Seq::<u32>::empty()) == Ok::<HeapView, ErrorView>(h1));
                }
                return Ok(());
            },
        };
        let ghost goal = release_all(old(self)@, class_area@.classes, seq![ptr]);
        assert(goal == release_all(h2, class_area@.classes, pending@));
        proof {
            assert(h2.refcounts[i as int] == 0);
            assert(h2.contents[i as int] is None);
        }
        while pending.len() > 0
            invariant
                self.wf(),
                shrinks(old(self)@, h2),
                shrinks(h2, self@),
                ptr != NULL,
                slot_of(old(self)@, ptr as int) == i,
                old(self)@.refcounts[i as int] == 1,
                h2.refcounts[i as int] == 0,
                h2.contents[i as int] is None,
                forall|j: int| 0 <= j < h2.strings.len() ==> (#[trigger] h2.strings[j]).1 != ptr,
                goal == release_all(old(self)@, class_area@.classes, seq![ptr]),
                release_all(self@, class_area@.classes, pending@) == goal,
            decreases live_count(self@.contents), pending@.len(),
        {
            let ghost pend = pending@;
            let p = pending.pop().unwrap();
            let ghost before = self@;
            assert(pending@ == pend.drop_last() && p == pend.last());
            let res = self.release_one(p, class_area, &mut pending);
            proof {
                lemma_shrinks_trans(h2, before, self@);
                lemma_shrinks_trans(old(self)@, h2, self@);
                lemma_freed_stays(h2, self@, ptr, i as int);
            }
            match res {
                Ok(()) => {},
                Err(e) => {
                    return Err(e);
                },
            }
        }
        proof {
            lemma_shrinks_trans(old(self)@, h2, self@);
            lemma_freed_stays(h2, self@, ptr, i as int);
        }
        Ok(())
    }

    /// One step of releasing: counts one reference fewer to `p`, and when
    /// its object is freed, adds the references it held to `pending`.
    fn release_one(&mut self, p: u32, class_area: &SharedClassArea, pending: &mut Vec<u32>) -> (r: Result<
        (),
        Error,
    >)
        requires
            old(self).wf(),
        ensures
            final(self).wf(),
            shrinks(old(self)@, final(self)@),
            live_count(final(self)@.contents) < live_count(old(self)@.contents) || (live_count(
                final(self)@.contents,
            ) == live_count(old(self)@.contents) && final(pending)@ == old(pending)@),
            match release_step(old(self)@, class_area@.classes, p) {
                Err(e) => r matches Err(er) && er@ == e,
                Ok((h2, more)) => r is Ok && final(self)@ == h2 && final(pending)@ == old(pending)@ + more,
            },
    {
        proof {
            lemma_shrinks_refl(self@);
            assert(old(pending)@ + Seq::<u32>::empty() =~= old(pending)@);
        }
        if p == NULL {
            return Ok(());
        }
        let i = match self.slot(p) {
            Some(i) => i,
            None => {
                return Err(Error::Misc(Fault::NullPointer));
            },
        };
        if self.refcounts[i] == 0 {
            return Err(Error::Misc(Fault::RefCountUnderflow));
        }
        let c = self.refcounts[i] - 1;
        self.refcounts.set(i, c);
        if c > 0 {
            return Ok(());
        }
        let ghost h0 = self@;
        self.forget_string(p);
        let ghost h1 = self@;
        proof {
            lemma_shrinks_trans(old(self)@, h0, h1);
        }
        if self.contents[i].is_none() {
            return Ok(());
        }
        let taken = self.contents.remove(i);
        self.contents.insert(i, None);
        proof {
            assert(self@.contents =~= h1.contents.update(i as int, None));
            lemma_shrinks_trans(old(self)@, h1, self@);
            lemma_free_slot(h1.contents, i as int);
        }
        match taken {
            Some(obj) => {
                let refs = match Self::references_of(&obj, class_area) {
                    Ok(v) => v,
                    Err(e) => {
                        return Err(e);
                    },
                };
                let ghost start = pending@;
                let mut k: usize = 0;
                while k < refs.len()
                    invariant
                        k <= refs@.len(),
                        pending@ == start + refs@.subrange(0, k as int),
                    decreases refs@.len() - k,
                {
                    pending.push(refs[k]);
                    k = k + 1;
                    assert(pending@ =~= start + refs@.subrange(0, k as int));
                }
                assert(refs@.subrange(0, k as int) =~= refs@);
                Ok(())
            },
            None => Ok(()),
        }
    }
}

/// The heap with the object in slot `i` replaced by `o`.
pub open spec fn with_object(h: HeapView, i: int, o: ObjectView) -> HeapView {
    HeapView { contents: h.contents.update(i, Some(o)), ..h }
}

/// The elements of an array of one-word elements.
pub open spec fn words_of(o: ObjectView) -> Seq<u32> {
    o.native_fields[1]->Words_0
}

/// The elements of an array of two-word elements.
pub open spec fn longs_of(o: ObjectView) -> Seq<u64> {
    o.native_fields[1]->Longs_0
}

/// Whether an array's elements are references.
pub open spec fn holds_references(o: ObjectView) -> bool {
    o.native_fields[0]->ArrayType_0.is_reference()
}

impl Heap {
    /// Takes the live object of slot `i` out, leaving the slot empty.
    fn take_slot(&mut self, i: usize) -> (r: Object)
        requires
            old(self).wf(),
            i < old(self)@.contents.len(),
            old(self)@.contents[i as int] is Some,
        ensures
            final(self).wf(),
            final(self)@ == (HeapView { contents: old(self)@.contents.update(i as int, None), ..old(self)@ }),
            Some(r@) == old(self)@.contents[i as int],
    {
        let o = self.contents.remove(i);
        self.contents.insert(i, None);
        assert(self@.contents =~= old(self)@.contents.update(i as int, None));
        match o {
            Some(x) => x,
            None => {
                assert(false);
                Object { fields: Vec::new(), native_fields: Vec::new(), class: Vec::new() }
            },
        }
    }

    /// Puts `o` into slot `i`.
    fn put_slot(&mut self, i: usize, o: Object)
        requires
            old(self).wf(),
            i < old(self)@.contents.len(),
        ensures
            final(self).wf(),
            final(self)@ == with_object(old(self)@, i as int, o@),
    {
        let ghost ov = o@;
        self.contents.remove(i);
        self.contents.insert(i, Some(o));
        assert(self@.contents =~= old(self)@.contents.update(i as int, Some(ov)));
    }

    /// The slot of a live object, or the fault for a reference to none.
    fn live_slot(&self, ptr: u32) -> (r: Result<usize, Fault>)
        ensures
            match object_at(self@, ptr as int) {
                Some(o) => r matches Ok(i) && i == slot_of(self@, ptr as int) && i < self@.contents.len(),
                None => r == Err::<usize, Fault>(Fault::NullPointer),
            },
    {
        match self.slot(ptr) {
            Some(i) => {
                assert(self@.contents[i as int] == match self.contents@[i as int] {
                    Some(x) => Some(x@),
                    None => None::<ObjectView>,
                });
                if self.contents[i].is_some() {
                    Ok(i)
                } else {
                    Err(Fault::NullPointer)
                }
            },
            None => Err(Fault::NullPointer),
        }
    }

    /// Takes the live object `ptr` out to change it, with its slot; the slot
    /// stays empty until `restore` puts an object back. A reference to no
    /// live object is a fault, and then nothing changes.
    pub fn take(&mut self, ptr: u32) -> (r: Result<(usize, Object), Fault>)
        requires
            old(self).wf(),
        ensures
            final(self).wf(),
            match object_at(old(self)@, ptr as int) {
                None => r == Err::<(usize, Object), Fault>(Fault::NullPointer) && *final(self) == *old(self),
                Some(o) => r matches Ok((i, x)) && x@ == o && i == slot_of(old(self)@, ptr as int)
                    && i < old(self)@.contents.len()
                    && final(self)@ == (HeapView { contents: old(self)@.contents.update(i as int, None), ..old(self)@ }),
            },
    {
        let i = self.live_slot(ptr)?;
        let o = self.take_slot(i);
        Ok((i, o))
    }

    /// Puts `o` into slot `i` (after `take`).
    pub fn restore(&mut self, i: usize, o: Object)
        requires
            old(self).wf(),
            i < old(self)@.contents.len(),
        ensures
            final(self).wf(),
            final(self)@ == with_object(old(self)@, i as int, o@),
    {
        self.put_slot(i, o);
    }

    /// The field word `idx` of the object `ptr`.
    pub fn get_field(&self, ptr: u32, idx: usize) -> (r: Result<u32, Fault>)
        ensures
            object_at(self@, ptr as int) matches Some(o) ==> o.fields.len() <= usize::MAX,
            match object_at(self@, ptr as int) {
                None => r == Err::<u32, Fault>(Fault::NullPointer),
                Some(o) => if idx < o.fields.len() {
                    r == Ok::<u32, Fault>(o.fields[idx as int])
                } else {
                    r == Err::<u32, Fault>(Fault::FieldOutOfRange)
                },
            },
    {
        match self.get(ptr as usize) {
            Some(o) => if idx < o.fields.len() {
                let n = o.fields.len();
                Ok(o.fields[idx])
            } else {
                Err(Fault::FieldOutOfRange)
            },
            None => Err(Fault::NullPointer),
        }
    }

    /// Sets the field word `idx` of the object `ptr` to `v`, and gives the
    /// word it replaced; on a fault the heap is unchanged.
    pub fn set_field(&mut self, ptr: u32, idx: usize, v: u32) -> (r: Result<u32, Fault>)
        requires
            old(self).wf(),
        ensures
            final(self).wf(),
            match object_at(old(self)@, ptr as int) {
                None => r == Err::<u32, Fault>(Fault::NullPointer) && final(self)@ == old(self)@,
                Some(o) => if idx < o.fields.len() {
                    r == Ok::<u32, Fault>(o.fields[idx as int]) && final(self)@ == with_object(
                        old(self)@,
                        slot_of(old(self)@, ptr as int),
                        ObjectView { fields: o.fields.update(idx as int, v), ..o },
                    )
                } else {
                    r == Err::<u32, Fault>(Fault::FieldOutOfRange) && final(self)@ == old(self)@
                },
            },
    {
        let i = self.live_slot(ptr)?;
        let mut o = self.take_slot(i);
        if idx >= o.fields.len() {
            self.put_slot(i, o);
            assert(self@.contents =~= old(self)@.contents);
            return Err(Fault::FieldOutOfRange);
        }
        let before = o.fields[idx];
        o.fields.set(idx, v);
        let ghost nv = o@;
        self.put_slot(i, o);
        assert(self@.contents =~= old(self)@.contents.update(i as int, Some(nv)));
        Ok(before)
    }

    /// The number of elements of the one-word array `ptr`.
    pub fn array_length(&self, ptr: u32) -> (r: Result<usize, Fault>)
        ensures
            match object_at(self@, ptr as int) {
                None => r == Err::<usize, Fault>(Fault::NullPointer),
                Some(o) => if is_array1(o) {
                    r == Ok::<usize, Fault>(words_of(o).len() as usize)
                } else {
                    r == Err::<usize, Fault>(Fault::WrongObjectKind)
                },
            },
    {
        match self.get(ptr as usize) {
            Some(o) => {
                let a = crate::object::Array1::extract(o)?;
                Ok(a.contents.len())
            },
            None => Err(Fault::NullPointer),
        }
    }

    /// The element `index` of the one-word array `ptr`, and whether the
    /// array's elements are references.
    pub fn array1_load(&self, ptr: u32, index: u32) -> (r: Result<(u32, bool), Fault>)
        ensures
            match object_at(self@, ptr as int) {
                None => r == Err::<(u32, bool), Fault>(Fault::NullPointer),
                Some(o) => if !is_array1(o) {
                    r == Err::<(u32, bool), Fault>(Fault::WrongObjectKind)
                } else if index >= words_of(o).len() {
                    r == Err::<(u32, bool), Fault>(Fault::IndexOutOfBounds)
                } else {
                    r == Ok::<(u32, bool), Fault>((words_of(o)[index as int], holds_references(o)))
                },
            },
    {
        match self.get(ptr as usize) {
            Some(o) => {
                let a = crate::object::Array1::extract(o)?;
                if index as usize >= a.contents.len() {
                    return Err(Fault::IndexOutOfBounds);
                }
                Ok((a.contents[index as usize], a.arr_type.is_reference()))
            },
            None => Err(Fault::NullPointer),
        }
    }

    /// The element `index` of the two-word array `ptr`.
    pub fn array2_load(&self, ptr: u32, index: u32) -> (r: Result<u64, Fault>)
        ensures
            match object_at(self@, ptr as int) {
                None => r == Err::<u64, Fault>(Fault::NullPointer),
                Some(o) => if !is_array2(o) {
                    r == Err::<u64, Fault>(Fault::WrongObjectKind)
                } else if index >= longs_of(o).len() {
                    r == Err::<u64, Fault>(Fault::IndexOutOfBounds)
                } else {
                    r == Ok::<u64, Fault>(longs_of(o)[index as int])
                },
            },
    {
        match self.get(ptr as usize) {
            Some(o) => {
                let a = crate::object::Array2::extract(o)?;
                if index as usize >= a.contents.len() {
                    return Err(Fault::IndexOutOfBounds);
                }
                Ok(a.contents[index as usize])
            },
            None => Err(Fault::NullPointer),
        }
    }

    /// Sets the element `index` of the one-word array `ptr` to `v`; gives the
    /// element replaced and whether the array's elements are references. On a
    /// fault the heap is unchanged.
    pub fn array1_store(&mut self, ptr: u32, index: u32, v: u32) -> (r: Result<(u32, bool), Fault>)
        requires
            old(self).wf(),
        ensures
            final(self).wf(),
            match object_at(old(self)@, ptr as int) {
                None => r == Err::<(u32, bool), Fault>(Fault::NullPointer) && final(self)@ == old(self)@,
                Some(o) => if !is_array1(o) {
                    r == Err::<(u32, bool), Fault>(Fault::WrongObjectKind) && final(self)@ == old(self)@
                } else if index >= words_of(o).len() {
                    r == Err::<(u32, bool), Fault>(Fault::IndexOutOfBounds) && final(self)@ == old(self)@
                } else {
                    r == Ok::<(u32, bool), Fault>((words_of(o)[index as int], holds_references(o)))
                        && final(self)@ == with_object(
                        old(self)@,
                        slot_of(old(self)@, ptr as int),
                        ObjectView {
                            native_fields: o.native_fields.update(
                                1,
                                NativeFieldView::Words(words_of(o).update(index as int, v)),
                            ),
                            ..o
                        },
                    )
                },
            },
    {
        let i = self.live_slot(ptr)?;
        let mut o = self.take_slot(i);
        let ghost ov = o@;
        if o.native_fields.len() != 2 {
            self.put_slot(i, o);
            assert(self@.contents =~= old(self)@.contents);
            return Err(Fault::WrongObjectKind);
        }
        assert(ov.native_fields[0] == o.native_fields@[0]@);
        assert(ov.native_fields[1] == o.native_fields@[1]@);
        let is_ref = match &o.native_fields[0] {
            NativeField::ArrayType(t) => t.is_reference(),
            _ => {
                self.put_slot(i, o);
                assert(self@.contents =~= old(self)@.contents);
                return Err(Fault::WrongObjectKind);
            },
        };
        let mut contents = match o.native_fields.remove(1) {
            NativeField::Words(w) => w,
            other => {
                o.native_fields.insert(1, other);
                assert(o@ == ov) by {
                    assert(native_fields_view(o.native_fields@) =~= ov.native_fields);
                }
                self.put_slot(i, o);
                assert(self@.contents =~= old(self)@.contents);
                return Err(Fault::WrongObjectKind);
            },
        };
        if index as usize >= contents.len() {
            o.native_fields.insert(1, NativeField::Words(contents));
            assert(o@ == ov) by {
                assert(native_fields_view(o.native_fields@) =~= ov.native_fields);
            }
            self.put_slot(i, o);
            assert(self@.contents =~= old(self)@.contents);
            return Err(Fault::IndexOutOfBounds);
        }
        let before = contents[index as usize];
        contents.set(index as usize, v);
        o.native_fields.insert(1, NativeField::Words(contents));
        assert(native_fields_view(o.native_fields@) =~= ov.native_fields.update(
            1,
            NativeFieldView::Words(words_of(ov).update(index as int, v)),
        ));
        let ghost nv = o@;
        self.put_slot(i, o);
        assert(self@.contents =~= old(self)@.contents.update(i as int, Some(nv)));
        Ok((before, is_ref))
    }

    /// Sets the element `index` of the two-word array `ptr` to `v`; on a fault
    /// the heap is unchanged.
    pub fn array2_store(&mut self, ptr: u32, index: u32, v: u64) -> (r: Result<(), Fault>)
        requires
            old(self).wf(),
        ensures
            final(self).wf(),
            match object_at(old(self)@, ptr as int) {
                None => r == Err::<(), Fault>(Fault::NullPointer) && final(self)@ == old(self)@,
                Some(o) => if !is_array2(o) {
                    r == Err::<(), Fault>(Fault::WrongObjectKind) && final(self)@ == old(self)@
                } else if index >= longs_of(o).len() {
                    r == Err::<(), Fault>(Fault::IndexOutOfBounds) && final(self)@ == old(self)@
                } else {
                    r is Ok && final(self)@ == with_object(
                        old(self)@,
                        slot_of(old(self)@, ptr as int),
                        ObjectView {
                            native_fields: o.native_fields.update(
                                1,
                                NativeFieldView::Longs(longs_of(o).update(index as int, v)),
                            ),
                            ..o
                        },
                    )
                },
            },
    {
        let i = self.live_slot(ptr)?;
        let mut o = self.take_slot(i);
        let ghost ov = o@;
        if o.native_fields.len() != 2 {
            self.put_slot(i, o);
            assert(self@.contents =~= old(self)@.contents);
            return Err(Fault::WrongObjectKind);
        }
        assert(ov.native_fields[0] == o.native_fields@[0]@);
        assert(ov.native_fields[1] == o.native_fields@[1]@);
        let typed = match &o.native_fields[0] {
            NativeField::ArrayType(_) => true,
            _ => false,
        };
        if !typed {
            self.put_slot(i, o);
            assert(self@.contents =~= old(self)@.contents);
            return Err(Fault::WrongObjectKind);
        }
        let mut contents = match o.native_fields.remove(1) {
            NativeField::Longs(w) => w,
            other => {
                o.native_fields.insert(1, other);
                assert(o@ == ov) by {
                    assert(native_fields_view(o.native_fields@) =~= ov.native_fields);
                }
                self.put_slot(i, o);
                assert(self@.contents =~= old(self)@.contents);
                return Err(Fault::WrongObjectKind);
            },
        };
        if index as usize >= contents.len() {
            o.native_fields.insert(1, NativeField::Longs(contents));
            assert(o@ == ov) by {
                assert(native_fields_view(o.native_fields@) =~= ov.native_fields);
            }
            self.put_slot(i, o);
            assert(self@.contents =~= old(self)@.contents);
            return Err(Fault::IndexOutOfBounds);
        }
        contents.set(index as usize, v);
        o.native_fields.insert(1, NativeField::Longs(contents));
        assert(native_fields_view(o.native_fields@) =~= ov.native_fields.update(
            1,
            NativeFieldView::Longs(longs_of(ov).update(index as int, v)),
        ));
        let ghost nv = o@;
        self.put_slot(i, o);
        assert(self@.contents =~= old(self)@.contents.update(i as int, Some(nv)));
        Ok(())
    }
}

/// An object put on the heap is what its new reference names, as long as
/// the references have not wrapped around; every other reference names what
/// it named before.
pub proof fn law_allocate_then_get(h: HeapView, o: ObjectView, q: int)
    requires
        h.contents.len() + HEAP_START < 0x1_0000_0000,
        h.contents.len() == h.refcounts.len(),
    ensures
        ({
            let r = ((h.contents.len() + HEAP_START) % 0x1_0000_0000) as u32;
            let h2 = HeapView { contents: h.contents.push(Some(o)), refcounts: h.refcounts.push(0), ..h };
            &&& object_at(h2, r as int) == Some(o)
            &&& q != r ==> object_at(h2, q) == object_at(h, q)
        }),
{
    let r = ((h.contents.len() + HEAP_START) % 0x1_0000_0000) as u32;
    assert(r as int == h.contents.len() + HEAP_START);
}

/// Reading a field word after writing it gives what was written; the
/// object's other words, and every other object, stay as they were.
pub proof fn law_field_write_then_read(h: HeapView, ptr: u32, idx: int, v: u32, q: int, j: int)
    requires
        object_at(h, ptr as int) is Some,
        0 <= idx < object_at(h, ptr as int)->Some_0.fields.len(),
    ensures
        ({
            let o = object_at(h, ptr as int)->Some_0;
            let h2 = with_object(h, slot_of(h, ptr as int), ObjectView { fields: o.fields.update(idx, v), ..o });
            &&& object_at(h2, ptr as int) matches Some(o2) && o2.fields[idx] == v
            &&& 0 <= j < o.fields.len() && j != idx ==> object_at(h2, ptr as int)->Some_0.fields[j] == o.fields[j]
            &&& q != ptr ==> object_at(h2, q) == object_at(h, q)
        }),
{
}

/// Loading an array element after storing it gives what was stored; the
/// other elements stay as they were.
pub proof fn law_array_store_then_load(h: HeapView, ptr: u32, index: int, v: u32, j: int)
    requires
        object_at(h, ptr as int) matches Some(o) && is_array1(o) && 0 <= index < words_of(o).len(),
    ensures
        ({
            let o = object_at(h, ptr as int)->Some_0;
            let o2 = ObjectView {
                native_fields: o.native_fields.update(1, NativeFieldView::Words(words_of(o).update(index, v))),
                ..o
            };
            let h2 = with_object(h, slot_of(h, ptr as int), o2);
            &&& object_at(h2, ptr as int) == Some(o2)
            &&& is_array1(o2)
            &&& words_of(o2)[index] == v
            &&& 0 <= j < words_of(o).len() && j != index ==> words_of(o2)[j] == words_of(o)[j]
        }),
{
}

/// Asking twice for the string object of the same text gives the same
/// reference, and the second time changes nothing.
pub proof fn law_string_interned(h: HeapView, s: Seq<char>)
    ensures
        ({
            let (h1, p1) = spec_allocate_str(h, s);
            let (h2, p2) = spec_allocate_str(h1, s);
            p2 == p1 && h2 == h1
        }),
{
    let (h1, p1) = spec_allocate_str(h, s);
    match lookup_entry(h.strings, s) {
        Some(i) => {},
        None => {
            crate::data::lemma_insert_lookup(h.strings, s, p1, s);
        },
    }
}


/// The words of the reference-typed fields among `fields` (each with the
/// position of its word), taken from `words`; a reference-typed field past
/// the words is a fault.
pub open spec fn field_refs(fields: Seq<(FieldView, usize)>, words: Seq<u32>) -> Result<Seq<u32>, Fault>
    decreases fields.len(),
{
    if fields.len() == 0 {
        Ok(seq![])
    } else {
        match field_refs(fields.drop_last(), words) {
            Err(f) => Err(f),
            Ok(s) => {
                let (fd, at) = fields.last();
                if fd.descriptor.is_reference() {
                    if at >= words.len() {
                        Err(Fault::FieldOutOfRange)
                    } else {
                        Ok(s.push(words[at as int]))
                    }
                } else {
                    Ok(s)
                }
            },
        }
    }
}

/// The references that the object `o` holds: the words of the
/// reference-typed fields of its class, in the class's order, then, for an
/// array of references, its elements. A class that is not loaded is an
/// error.
pub open spec fn references(o: ObjectView, classes: Seq<ClassView>) -> Result<Seq<u32>, ErrorView> {
    let k = class_position(classes, o.class);
    if k < 0 {
        Err(ErrorView::ClassResolution(o.class))
    } else {
        match field_refs(classes[k].fields, o.fields) {
            Err(f) => Err(ErrorView::Misc(f)),
            Ok(s) => Ok(
                if is_array1(o) && holds_references(o) {
                    s + words_of(o)
                } else {
                    s
                },
            ),
        }
    }
}

/// The strings kept for references other than `ptr`.
pub open spec fn forget(strings: Seq<(Seq<char>, u32)>, ptr: u32) -> Seq<(Seq<char>, u32)> {
    strings.filter(|e: (Seq<char>, u32)| e.1 != ptr)
}

/// One count fewer to `p` (nothing for null): the heap after it, and the
/// references to count fewer in turn, those of the object when it is freed
/// (its count reaching zero, its string forgotten).
pub open spec fn release_step(h: HeapView, classes: Seq<ClassView>, p: u32) -> Result<(HeapView, Seq<u32>), ErrorView> {
    let i = slot_of(h, p as int);
    if p == NULL {
        Ok((h, seq![]))
    } else if i < 0 {
        Err(ErrorView::Misc(Fault::NullPointer))
    } else if h.refcounts[i] == 0 {
        Err(ErrorView::Misc(Fault::RefCountUnderflow))
    } else if h.refcounts[i] > 1 {
        Ok((HeapView { refcounts: h.refcounts.update(i, (h.refcounts[i] - 1) as u32), ..h }, seq![]))
    } else {
        let h1 = HeapView {
            contents: h.contents,
            refcounts: h.refcounts.update(i, 0),
            strings: forget(h.strings, p),
            class_objects: h.class_objects,
        };
        match h.contents[i] {
            None => Ok((h1, seq![])),
            Some(o) => match references(o, classes) {
                Err(e) => Err(e),
                Ok(refs) => Ok((HeapView { contents: h1.contents.update(i, None), ..h1 }, refs)),
            },
        }
    }
}

/// A step of releasing frees an object or leaves nothing more to release.
pub proof fn lemma_release_step_shrinks(h: HeapView, classes: Seq<ClassView>, p: u32)
    requires
        release_step(h, classes, p) is Ok,
    ensures
        ({
            let (h2, more) = release_step(h, classes, p)->Ok_0;
            live_count(h2.contents) < live_count(h.contents) || (live_count(h2.contents) == live_count(h.contents)
                && more.len() == 0)
        }),
{
    let i = slot_of(h, p as int);
    if p != NULL && i >= 0 && h.refcounts[i] == 1 && h.contents[i] is Some {
        lemma_free_slot(h.contents, i);
    }
}

/// Releasing the references `pending`, the last first, each freed object's
/// references joining the end: the heap after it, or the first error.
pub open spec fn release_all(h: HeapView, classes: Seq<ClassView>, pending: Seq<u32>) -> Result<HeapView, ErrorView>
    decreases live_count(h.contents), pending.len(),
{
    if pending.len() == 0 {
        Ok(h)
    } else {
        match release_step(h, classes, pending.last()) {
            Err(e) => Err(e),
            Ok((h2, more)) => {
                proof {
                    lemma_release_step_shrinks(h, classes, pending.last());
                }
                release_all(h2, classes, pending.drop_last() + more)
            },
        }
    }
}


/// Once the reference fields of a prefix fail, those of every longer
/// prefix fail the same way.
proof fn lemma_field_refs_fail(fields: Seq<(FieldView, usize)>, words: Seq<u32>, k: nat)
    requires
        k <= fields.len(),
        field_refs(fields.subrange(0, k as int), words) is Err,
    ensures
        field_refs(fields, words) == field_refs(fields.subrange(0, k as int), words),
    decreases fields.len() - k,
{
    if k < fields.len() {
        assert(fields.subrange(0, (k + 1) as int).drop_last() =~= fields.subrange(0, k as int));
        lemma_field_refs_fail(fields, words, k + 1);
    } else {
        assert(fields.subrange(0, k as int) =~= fields);
    }
}


/// Counting one more reference to a counted object and then releasing it
/// gives the heap back as it was.
pub proof fn law_inc_then_dec(h: HeapView, classes: Seq<ClassView>, p: u32)
    requires
        h.refcounts.len() == h.contents.len(),
        spec_inc_ref(h, p) is Ok,
        p != NULL ==> h.refcounts[slot_of(h, p as int)] >= 1,
    ensures
        release_all(spec_inc_ref(h, p)->Ok_0, classes, seq![p]) == Ok::<HeapView, ErrorView>(h),
{
    let h1 = spec_inc_ref(h, p)->Ok_0;
    let one = seq![p];
    assert(one.drop_last() =~= Seq::<u32>::empty());
    assert(one.drop_last() + Seq::<u32>::empty() =~= Seq::<u32>::empty());
    if p == NULL {
        assert(release_step(h1, classes, p) == Ok::<(HeapView, Seq<u32>), ErrorView>((h1, Seq::<u32>::empty())));
        assert(release_all(h1, classes, Seq::<u32>::empty()) == Ok::<HeapView, ErrorView>(h1));
    } else {
        let i = slot_of(h, p as int);
        assert(slot_of(h1, p as int) == i);
        assert(h1.refcounts[i] > 1);
        let h2 = HeapView { refcounts: h1.refcounts.update(i, (h1.refcounts[i] - 1) as u32), ..h1 };
        assert(h2.refcounts =~= h.refcounts);
        assert(h2 == h);
        assert(release_step(h1, classes, p) == Ok::<(HeapView, Seq<u32>), ErrorView>((h, Seq::<u32>::empty())));
        assert(release_all(h, classes, Seq::<u32>::empty()) == Ok::<HeapView, ErrorView>(h));
    }
}

} // verus!
