//! JSON values: a tree with ordered objects, its mathematical model, and the
//! loose accessors that the hook logic reads payloads with.

use vstd::prelude::*;
use crate::text;
use crate::text::{decimal, decimal_signed, same};

verus! {

/// A number that is not an integer. `text` is its printed form, `zero` says
/// whether it equals zero, `positive` whether it is greater than zero, and
/// `rounded` is the nearest integer (halves away from zero), held within `i64`.
pub struct Fraction {
    pub text: String,
    pub zero: bool,
    pub positive: bool,
    pub rounded: i64,
}

/// A JSON value.
pub enum Json {
    Null,
    Bool(bool),
    /// A non-negative integer.
    PosInt(u64),
    /// A negative integer.
    NegInt(i64),
    Frac(Fraction),
    Str(String),
    Arr(Vec<Json>),
    Obj(Object),
}

/// The members of a JSON object, in order.
pub struct Object {
    pub entries: Vec<(String, Json)>,
}

/// The model of a [`Fraction`].
pub struct FractionView {
    pub text: Seq<char>,
    pub zero: bool,
    pub positive: bool,
    pub rounded: int,
}

/// The model of a [`Json`] value.
#[verifier::ext_equal]
pub enum JsonView {
    Null,
    Bool(bool),
    Int(int),
    Frac(FractionView),
    Str(Seq<char>),
    Arr(Seq<JsonView>),
    Obj(Seq<(Seq<char>, JsonView)>),
}

/// The model of an object: its members in order.
pub type Members = Seq<(Seq<char>, JsonView)>;

impl View for Fraction {
    type V = FractionView;

    open spec fn view(&self) -> FractionView {
        FractionView {
            text: self.text@,
            zero: self.zero,
            positive: self.positive,
            rounded: self.rounded as int,
        }
    }
}

impl Json {
    pub open spec fn view(&self) -> JsonView
        decreases self,
    {
        match *self {
            Json::Null => JsonView::Null,
            Json::Bool(b) => JsonView::Bool(b),
            Json::PosInt(n) => JsonView::Int(n as int),
            Json::NegInt(n) => JsonView::Int(n as int),
            Json::Frac(f) => JsonView::Frac(f@),
            Json::Str(s) => JsonView::Str(s@),
            Json::Arr(a) => JsonView::Arr(
                Seq::new(
                    a@.len(),
                    |i: int|
                        if 0 <= i < a@.len() {
                            a@[i].view()
                        } else {
                            JsonView::Null
                        },
                ),
            ),
            Json::Obj(o) => JsonView::Obj(o.view()),
        }
    }
}

impl Object {
    pub open spec fn view(&self) -> Members
        decreases self,
    {
        Seq::new(
            self.entries@.len(),
            |i: int|
                if 0 <= i < self.entries@.len() {
                    (self.entries@[i].0@, self.entries@[i].1.view())
                } else {
                    (Seq::empty(), JsonView::Null)
                },
        )
    }
}

/// The models of a sequence of values.
pub open spec fn views(s: Seq<Json>) -> Seq<JsonView> {
    s.map_values(|j: Json| j@)
}

/// The model of an optional value.
pub open spec fn opt_view(o: Option<&Json>) -> Option<JsonView> {
    match o {
        Some(j) => Some(j@),
        None => None,
    }
}

/// The model of an array is the sequence of its items' models.
pub broadcast proof fn lemma_array_view(a: Vec<Json>)
    ensures
        #[trigger] Json::Arr(a)@ == JsonView::Arr(views(a@)),
{
    assert(Json::Arr(a)@->Arr_0 =~= views(a@));
}

impl Clone for Json {
    fn clone(&self) -> (r: Json)
        ensures
            r@ == self@,
        decreases self,
    {
        match self {
            Json::Null => Json::Null,
            Json::Bool(b) => Json::Bool(*b),
            Json::PosInt(n) => Json::PosInt(*n),
            Json::NegInt(n) => Json::NegInt(*n),
            Json::Frac(f) => Json::Frac(
                Fraction {
                    text: f.text.clone(),
                    zero: f.zero,
                    positive: f.positive,
                    rounded: f.rounded,
                },
            ),
            Json::Str(s) => Json::Str(s.clone()),
            Json::Arr(a) => {
                let mut r: Vec<Json> = Vec::new();
                let mut i: usize = 0;
                while i < a.len()
                    invariant
                        i <= a.len(),
                        r@.len() == i,
                        forall|k: int| 0 <= k < i ==> r@[k]@ == a@[k]@,
                        decreases_to!(self => a),
                    decreases a.len() - i,
                {
                    assert(decreases_to!(a => a@[i as int]));
                    let c = a[i].clone();
                    r.push(c);
                    i += 1;
                }
                assert(views(r@) =~= views(a@));
                proof {
                    lemma_array_view(r);
                    lemma_array_view(*a);
                }
                Json::Arr(r)
            },
            Json::Obj(o) => Json::Obj(o.clone()),
        }
    }
}

impl Clone for Object {
    fn clone(&self) -> (r: Object)
        ensures
            r@ == self@,
        decreases self,
    {
        let mut entries: Vec<(String, Json)> = Vec::new();
        let mut i: usize = 0;
        while i < self.entries.len()
            invariant
                i <= self.entries.len(),
                entries@.len() == i,
                forall|k: int|
                    0 <= k < i ==> entries@[k].0@ == self.entries@[k].0@ && entries@[k].1@
                        == self.entries@[k].1@,
            decreases self.entries.len() - i,
        {
            assert(decreases_to!(self => self.entries@[i as int]));
            let k = self.entries[i].0.clone();
            let v = self.entries[i].1.clone();
            entries.push((k, v));
            i += 1;
        }
        let r = Object { entries };
        assert(r@ =~= self@);
        r
    }
}

// ---------------------------------------------------------------------------
// Objects
// ---------------------------------------------------------------------------

/// The place of the first member named `k`, or the number of members when
/// there is none.
pub open spec fn position(m: Members, k: Seq<char>) -> int
    decreases m.len(),
{
    if m.len() == 0 || m[0].0 == k {
        0
    } else {
        1 + position(m.drop_first(), k)
    }
}

/// The value of the first member named `k`.
pub open spec fn lookup(m: Members, k: Seq<char>) -> Option<JsonView> {
    if position(m, k) < m.len() {
        Some(m[position(m, k)].1)
    } else {
        None
    }
}

/// The members after `k` is set to `v`: an existing member keeps its place, a
/// new one goes to the end.
pub open spec fn put(m: Members, k: Seq<char>, v: JsonView) -> Members {
    if position(m, k) < m.len() {
        m.update(position(m, k), (k, v))
    } else {
        m.push((k, v))
    }
}

/// The members of `m`, then those of `patch` set one after the other.
pub open spec fn put_all(m: Members, patch: Members) -> Members
    decreases patch.len(),
{
    if patch.len() == 0 {
        m
    } else {
        put(put_all(m, patch.drop_last()), patch.last().0, patch.last().1)
    }
}

/// The members without the first named `k`.
pub open spec fn removed(m: Members, k: Seq<char>) -> Members {
    if position(m, k) < m.len() {
        m.remove(position(m, k))
    } else {
        m
    }
}

/// No two members share a name.
pub open spec fn distinct_names(m: Members) -> bool {
    forall|i: int, j: int| 0 <= i < j < m.len() ==> #[trigger] m[i].0 != #[trigger] m[j].0
}

/// `position` is the first place whose name is `k`.
pub proof fn lemma_position(m: Members, k: Seq<char>)
    ensures
        0 <= position(m, k) <= m.len(),
        forall|j: int| 0 <= j < position(m, k) ==> (#[trigger] m[j]).0 != k,
        position(m, k) < m.len() ==> m[position(m, k)].0 == k,
    decreases m.len(),
{
    if m.len() > 0 && m[0].0 != k {
        let rest = m.drop_first();
        lemma_position(rest, k);
        assert forall|j: int| 0 <= j < position(m, k) implies (#[trigger] m[j]).0 != k by {
            if j > 0 {
                assert(rest[j - 1] == m[j]);
            }
        }
    }
}

/// Reading a member back after it was set gives the value that was set, and
/// every other member reads as before.
pub proof fn law_put_then_lookup(m: Members, k: Seq<char>, v: JsonView, other: Seq<char>)
    ensures
        lookup(put(m, k, v), k) == Some(v),
        other != k ==> lookup(put(m, k, v), other) == lookup(m, other),
{
    let n = put(m, k, v);
    lemma_position(m, k);
    lemma_position(n, k);
    lemma_position(m, other);
    lemma_position(n, other);
    let p = position(m, k);
    if p < m.len() {
        assert(n[p].0 == k);
        assert forall|j: int| 0 <= j < p implies (#[trigger] n[j]).0 != k by {
            assert(n[j] == m[j]);
        }
        if position(n, k) < p {
            assert(n[position(n, k)].0 != k);
        }
        assert(position(n, k) == p);
        if other != k {
            let a = position(m, other);
            let b = position(n, other);
            if a < b {
                assert(n[a].0 != other);
                assert(m[a].0 == other);
            }
            if b < a {
                assert(m[b].0 != other);
                assert(n[b].0 == other);
            }
        }
    } else {
        assert(n[m.len() as int].0 == k);
        if position(n, k) < m.len() {
            assert(m[position(n, k)].0 != k);
        }
        if other != k {
            let a = position(m, other);
            let b = position(n, other);
            if a < b {
                if a < m.len() {
                    assert(n[a] == m[a]);
                    assert(n[a].0 != other);
                } else {
                    assert(n[a].0 == k);
                }
            }
            if b < a {
                assert(n[b] == m[b]);
                assert(m[b].0 != other);
            }
        }
    }
}

/// Setting a member keeps the names distinct.
pub proof fn law_put_keeps_names_distinct(m: Members, k: Seq<char>, v: JsonView)
    requires
        distinct_names(m),
    ensures
        distinct_names(put(m, k, v)),
{
    lemma_position(m, k);
    let n = put(m, k, v);
    let p = position(m, k);
    assert forall|i: int, j: int| 0 <= i < j < n.len() implies #[trigger] n[i].0
        != #[trigger] n[j].0 by {
        if p < m.len() {
            assert(m[i].0 != m[j].0);
        } else if j < m.len() {
            assert(m[i].0 != m[j].0);
        } else {
            assert(m[i].0 != k);
        }
    }
}

/// Setting a member twice is setting it once to the later value.
pub proof fn law_put_overwrites(m: Members, k: Seq<char>, v: JsonView, w: JsonView)
    ensures
        put(put(m, k, v), k, w) == put(m, k, w),
{
    let n = put(m, k, v);
    lemma_position(m, k);
    lemma_position(n, k);
    let p = position(m, k);
    assert(n[p].0 == k);
    if position(n, k) < p {
        assert(n[position(n, k)] == m[position(n, k)]);
    }
    if p < position(n, k) {
        assert(n[p].0 != k);
    }
    assert(put(n, k, w) =~= put(m, k, w));
}

/// After a patch, a member that the patch names reads as the patch has it (by
/// its last member of that name), and any other as before.
pub proof fn law_patch_then_lookup(m: Members, patch: Members, k: Seq<char>)
    ensures
        (forall|i: int| 0 <= i < patch.len() ==> (#[trigger] patch[i]).0 != k) ==> lookup(
            put_all(m, patch),
            k,
        ) == lookup(m, k),
        forall|i: int|
            0 <= i < patch.len() && (#[trigger] patch[i]).0 == k && (forall|j: int|
                i < j < patch.len() ==> (#[trigger] patch[j]).0 != k) ==> lookup(
                put_all(m, patch),
                k,
            ) == Some(patch[i].1),
    decreases patch.len(),
{
    if patch.len() > 0 {
        let head = patch.drop_last();
        law_patch_then_lookup(m, head, k);
        law_put_then_lookup(put_all(m, head), patch.last().0, patch.last().1, k);
        if forall|i: int| 0 <= i < patch.len() ==> (#[trigger] patch[i]).0 != k {
            assert forall|i: int| 0 <= i < head.len() implies (#[trigger] head[i]).0 != k by {
                assert(head[i] == patch[i]);
            }
            assert(patch[patch.len() - 1].0 != k);
        }
        assert forall|i: int|
            0 <= i < patch.len() && (#[trigger] patch[i]).0 == k && (forall|j: int|
                i < j < patch.len() ==> (#[trigger] patch[j]).0 != k) implies lookup(
            put_all(m, patch),
            k,
        ) == Some(patch[i].1) by {
            if i < head.len() {
                assert(patch[patch.len() - 1].0 != k);
                assert(head[i] == patch[i]);
                assert forall|j: int| i < j < head.len() implies (#[trigger] head[j]).0 != k by {
                    assert(head[j] == patch[j]);
                }
            }
        }
    }
}

impl Object {
    /// An object without members.
    pub fn new() -> (r: Object)
        ensures
            r@ == Members::empty(),
    {
        let r = Object { entries: Vec::new() };
        assert(r@ =~= Members::empty());
        r
    }

    /// The object with one more member at its end.
    pub fn with(self, k: &str, v: Json) -> (r: Object)
        ensures
            r@ == self@.push((k@, v@)),
    {
        let ghost before = self@;
        let mut entries = self.entries;
        entries.push((k.to_owned(), v));
        let r = Object { entries };
        assert(r@ =~= before.push((k@, v@)));
        r
    }

    fn place(&self, k: &str) -> (i: usize)
        ensures
            i == position(self@, k@),
            i <= self.entries@.len(),
    {
        let mut i: usize = 0;
        proof {
            lemma_position(self@, k@);
        }
        while i < self.entries.len()
            invariant
                i <= self.entries@.len(),
                i <= position(self@, k@),
                position(self@, k@) <= self@.len(),
                position(self@, k@) < self@.len() ==> self@[position(self@, k@)].0 == k@,
                forall|j: int| 0 <= j < position(self@, k@) ==> (#[trigger] self@[j]).0 != k@,
            decreases self.entries.len() - i,
        {
            assert(self@[i as int].0 == self.entries@[i as int].0@);
            if same(self.entries[i].0.as_str(), k) {
                return i;
            }
            i += 1;
        }
        i
    }

    /// The value of the member named `k`.
    pub fn get(&self, k: &str) -> (r: Option<&Json>)
        ensures
            opt_view(r) == lookup(self@, k@),
    {
        let i: usize = self.place(k);
        if i < self.entries.len() {
            assert(self@[i as int].1 == self.entries@[i as int].1@);
            Some(&self.entries[i].1)
        } else {
            None
        }
    }

    /// Sets the member named `k` to `v`.
    pub fn put(&mut self, k: &str, v: Json)
        ensures
            final(self)@ == put(old(self)@, k@, v@),
    {
        let ghost before = self@;
        let i: usize = self.place(k);
        if i < self.entries.len() {
            let entry = (k.to_owned(), v);
            self.entries.set(i, entry);
            assert(self@ =~= before.update(i as int, (k@, v@)));
        } else {
            self.entries.push((k.to_owned(), v));
            assert(self@ =~= before.push((k@, v@)));
        }
    }

    /// Sets every member of `patch`, in order.
    pub fn put_all(&mut self, patch: &Object)
        ensures
            final(self)@ == put_all(old(self)@, patch@),
    {
        let ghost before = self@;
        let mut i: usize = 0;
        assert(patch@.take(0) =~= Members::empty());
        while i < patch.entries.len()
            invariant
                i <= patch.entries@.len(),
                patch@.len() == patch.entries@.len(),
                self@ == put_all(before, patch@.take(i as int)),
            decreases patch.entries.len() - i,
        {
            let ghost head = patch@.take(i as int + 1);
            assert(head.drop_last() =~= patch@.take(i as int));
            assert(head.last() == (patch.entries@[i as int].0@, patch.entries@[i as int].1@));
            self.put(patch.entries[i].0.as_str(), patch.entries[i].1.clone());
            i += 1;
        }
        assert(patch@.take(i as int) =~= patch@);
    }

    /// Takes the member named `k` out.
    pub fn remove(&mut self, k: &str)
        ensures
            final(self)@ == removed(old(self)@, k@),
    {
        let ghost before = self@;
        let i: usize = self.place(k);
        if i < self.entries.len() {
            let _gone = self.entries.remove(i);
            assert(self@ =~= before.remove(i as int));
        }
    }

    /// Whether the object has no members.
    pub fn is_empty(&self) -> (r: bool)
        ensures
            r == (self@.len() == 0),
    {
        self.entries.len() == 0
    }
}

// ---------------------------------------------------------------------------
// Lists of names
// ---------------------------------------------------------------------------

/// A list of 1 as a sequence.
pub broadcast proof fn lemma_names_1(a: [&str; 1])
    ensures
        #[trigger] a@ == seq![a@[0]],
{
    assert(a@ =~= seq![a@[0]]);
}

/// A list of 2 as a sequence.
pub broadcast proof fn lemma_names_2(a: [&str; 2])
    ensures
        #[trigger] a@ == seq![a@[0], a@[1]],
{
    assert(a@ =~= seq![a@[0], a@[1]]);
}

/// A list of 3 as a sequence.
pub broadcast proof fn lemma_names_3(a: [&str; 3])
    ensures
        #[trigger] a@ == seq![a@[0], a@[1], a@[2]],
{
    assert(a@ =~= seq![a@[0], a@[1], a@[2]]);
}

/// A list of 4 as a sequence.
pub broadcast proof fn lemma_names_4(a: [&str; 4])
    ensures
        #[trigger] a@ == seq![a@[0], a@[1], a@[2], a@[3]],
{
    assert(a@ =~= seq![a@[0], a@[1], a@[2], a@[3]]);
}

/// A list of 5 as a sequence.
pub broadcast proof fn lemma_names_5(a: [&str; 5])
    ensures
        #[trigger] a@ == seq![a@[0], a@[1], a@[2], a@[3], a@[4]],
{
    assert(a@ =~= seq![a@[0], a@[1], a@[2], a@[3], a@[4]]);
}

/// A list of 6 as a sequence.
pub broadcast proof fn lemma_names_6(a: [&str; 6])
    ensures
        #[trigger] a@ == seq![a@[0], a@[1], a@[2], a@[3], a@[4], a@[5]],
{
    assert(a@ =~= seq![a@[0], a@[1], a@[2], a@[3], a@[4], a@[5]]);
}

/// A list of 7 as a sequence.
pub broadcast proof fn lemma_names_7(a: [&str; 7])
    ensures
        #[trigger] a@ == seq![a@[0], a@[1], a@[2], a@[3], a@[4], a@[5], a@[6]],
{
    assert(a@ =~= seq![a@[0], a@[1], a@[2], a@[3], a@[4], a@[5], a@[6]]);
}

/// Lists of names, and arrays, as sequences.
pub broadcast group group_json {
    lemma_array_view,
    lemma_names_1,
    lemma_names_2,
    lemma_names_3,
    lemma_names_4,
    lemma_names_5,
    lemma_names_6,
    lemma_names_7,
}

// ---------------------------------------------------------------------------
// Loose reading
// ---------------------------------------------------------------------------

impl JsonView {
    /// Whether the value counts as true: everything but `null`, `false`, zero
    /// and the empty text.
    pub open spec fn truthy(self) -> bool {
        match self {
            JsonView::Null => false,
            JsonView::Bool(b) => b,
            JsonView::Int(n) => n != 0,
            JsonView::Frac(f) => !f.zero,
            JsonView::Str(s) => s.len() > 0,
            JsonView::Arr(_) => true,
            JsonView::Obj(_) => true,
        }
    }

    /// The value as text: texts as they are, numbers and booleans as printed,
    /// anything else as the empty text.
    pub open spec fn lossy(self) -> Seq<char> {
        match self {
            JsonView::Str(s) => s,
            JsonView::Int(n) => text::int_text(n),
            JsonView::Frac(f) => f.text,
            JsonView::Bool(b) => if b {
                "true"@
            } else {
                "false"@
            },
            _ => Seq::empty(),
        }
    }

    /// The member named `k`, when the value is an object that has one.
    pub open spec fn field(self, k: Seq<char>) -> Option<JsonView> {
        match self {
            JsonView::Obj(m) => lookup(m, k),
            _ => None,
        }
    }

    /// The first truthy value among the members named by `keys`.
    pub open spec fn pick(self, keys: Seq<&str>) -> Option<JsonView>
        decreases keys.len(),
    {
        if keys.len() == 0 {
            None
        } else {
            match self.field(keys[0]@) {
                Some(v) if v.truthy() => Some(v),
                _ => self.pick(keys.drop_first()),
            }
        }
    }

    /// The text of the first truthy value among the members named by `keys`,
    /// empty when there is none.
    pub open spec fn pick_text(self, keys: Seq<&str>) -> Seq<char> {
        match self.pick(keys) {
            Some(v) => v.lossy(),
            None => Seq::empty(),
        }
    }

    /// Whether any member named by `keys` is truthy.
    pub open spec fn pick_flag(self, keys: Seq<&str>) -> bool {
        self.pick(keys) is Some
    }

    /// The items of the array member named `k`, none when there is no such array.
    pub open spec fn items(self, k: Seq<char>) -> Seq<JsonView> {
        match self.field(k) {
            Some(JsonView::Arr(a)) => a,
            _ => Seq::empty(),
        }
    }

    /// The text of the member named `k`, when it is one.
    pub open spec fn text_field(self, k: Seq<char>) -> Option<Seq<char>> {
        match self.field(k) {
            Some(JsonView::Str(s)) => Some(s),
            _ => None,
        }
    }

    /// The integer of the member named `k`, when it is one that fits in `i64`.
    pub open spec fn i64_field(self, k: Seq<char>) -> Option<int> {
        match self.field(k) {
            Some(JsonView::Int(n)) if i64::MIN <= n <= i64::MAX => Some(n),
            _ => None,
        }
    }

    /// The object without members.
    pub open spec fn object() -> JsonView {
        JsonView::Obj(Members::empty())
    }

    /// The object with one more member at its end.
    pub open spec fn with(self, k: Seq<char>, v: JsonView) -> JsonView {
        match self {
            JsonView::Obj(m) => JsonView::Obj(m.push((k, v))),
            _ => self,
        }
    }

    /// The object after the member named `k` is set to `v`; another value
    /// counts as the object without members.
    pub open spec fn set(self, k: Seq<char>, v: JsonView) -> JsonView {
        JsonView::Obj(put(self.members(), k, v))
    }

    /// The members, none when the value is not an object.
    pub open spec fn members(self) -> Members {
        match self {
            JsonView::Obj(m) => m,
            _ => Members::empty(),
        }
    }
}

/// A member of an object with one more member: an earlier one of that name comes
/// first.
pub broadcast proof fn lemma_with_field(v: JsonView, k: Seq<char>, x: JsonView, key: Seq<char>)
    requires
        v is Obj,
    ensures
        v.with(k, x) is Obj,
        #[trigger] v.with(k, x).field(key) == (if v.field(key) is Some {
            v.field(key)
        } else if k == key {
            Some(x)
        } else {
            None
        }),
{
    let m = v->Obj_0;
    let n = m.push((k, x));
    lemma_position(m, key);
    lemma_position(n, key);
    let a = position(m, key);
    let b = position(n, key);
    if a < m.len() {
        assert(n[a] == m[a]);
        if b < a {
            assert(n[b] == m[b]);
        }
        if a < b {
            assert(n[a].0 != key);
        }
    } else {
        if b < m.len() {
            assert(n[b] == m[b]);
        }
        assert(n[m.len() as int] == (k, x));
        if k == key && b > m.len() {
            assert(n[m.len() as int].0 != key);
        }
    }
}

/// A member of an object after one was set.
pub broadcast proof fn lemma_set_field(v: JsonView, k: Seq<char>, x: JsonView, key: Seq<char>)
    ensures
        #[trigger] v.set(k, x).field(key) == (if k == key {
            Some(x)
        } else {
            v.field(key)
        }),
{
    law_put_then_lookup(v.members(), k, x, key);
    lemma_position(Members::empty(), key);
}

/// The object without members has none.
pub broadcast proof fn lemma_object_field(key: Seq<char>)
    ensures
        #[trigger] JsonView::object().field(key) is None,
{
    lemma_position(Members::empty(), key);
}

/// What the members of an object literal are.
pub broadcast group group_fields {
    lemma_with_field,
    lemma_set_field,
    lemma_object_field,
}

/// Whether a value counts as true.
pub fn is_truthy(v: &Json) -> (r: bool)
    ensures
        r == v@.truthy(),
{
    match v {
        Json::Null => false,
        Json::Bool(b) => *b,
        Json::PosInt(n) => *n != 0,
        Json::NegInt(n) => *n != 0,
        Json::Frac(f) => !f.zero,
        Json::Str(s) => !s.as_str().is_empty(),
        Json::Arr(_) => true,
        Json::Obj(_) => true,
    }
}

/// A value as text.
pub fn as_str_lossy(v: &Json) -> (r: String)
    ensures
        r@ == v@.lossy(),
{
    match v {
        Json::Str(s) => s.clone(),
        Json::PosInt(n) => decimal(*n),
        Json::NegInt(n) => decimal_signed(*n),
        Json::Frac(f) => f.text.clone(),
        Json::Bool(b) => if *b {
            "true".to_owned()
        } else {
            "false".to_owned()
        },
        _ => String::new(),
    }
}

/// The member named `k` of an object.
pub fn get<'a>(v: &'a Json, k: &str) -> (r: Option<&'a Json>)
    ensures
        opt_view(r) == v@.field(k@),
{
    match v {
        Json::Obj(o) => o.get(k),
        _ => None,
    }
}

/// The first truthy value among the members named by `keys`.
pub fn pick<'a>(v: &'a Json, keys: &[&str]) -> (r: Option<&'a Json>)
    ensures
        opt_view(r) == v@.pick(keys@),
{
    let mut i: usize = 0;
    assert(keys@.skip(0) =~= keys@);
    while i < keys.len()
        invariant
            i <= keys@.len(),
            v@.pick(keys@) == v@.pick(keys@.skip(i as int)),
        decreases keys.len() - i,
    {
        assert(keys@.skip(i as int).drop_first() =~= keys@.skip(i as int + 1));
        assert(keys@.skip(i as int)[0] == keys@[i as int]);
        if let Some(x) = get(v, keys[i]) {
            if is_truthy(x) {
                return Some(x);
            }
        }
        i += 1;
    }
    None
}

/// The text of the first truthy value among the members named by `keys`.
pub fn pick_str(v: &Json, keys: &[&str]) -> (r: String)
    ensures
        r@ == v@.pick_text(keys@),
{
    match pick(v, keys) {
        Some(x) => as_str_lossy(x),
        None => String::new(),
    }
}

/// Whether any member named by `keys` is truthy.
pub fn pick_bool(v: &Json, keys: &[&str]) -> (r: bool)
    ensures
        r == v@.pick_flag(keys@),
{
    match pick(v, keys) {
        Some(_) => true,
        None => false,
    }
}

/// The items of the array member named `k`.
pub fn arr<'a>(v: &'a Json, k: &str) -> (r: &'a [Json])
    ensures
        views(r@) == v@.items(k@),
{
    broadcast use lemma_array_view;

    match get(v, k) {
        Some(Json::Arr(a)) => a.as_slice(),
        _ => {
            let r: &[Json] = &[];
            assert(views(r@) =~= Seq::empty());
            r
        },
    }
}

/// Whether a value is an object.
pub fn is_plain_object(v: &Json) -> (r: bool)
    ensures
        r == (v@ is Obj),
{
    match v {
        Json::Obj(_) => true,
        _ => false,
    }
}

/// An object without members.
pub fn map() -> (r: Object)
    ensures
        r@ == Members::empty(),
{
    Object::new()
}

/// The text of the member named `k`.
pub fn text_field<'a>(v: &'a Json, k: &str) -> (r: Option<&'a str>)
    ensures
        match r {
            Some(s) => v@.text_field(k@) == Some(s@),
            None => v@.text_field(k@) is None,
        },
{
    match get(v, k) {
        Some(Json::Str(s)) => Some(s.as_str()),
        _ => None,
    }
}

/// The integer of the member named `k`, when it fits in `i64`.
pub fn i64_field(v: &Json, k: &str) -> (r: Option<i64>)
    ensures
        match r {
            Some(n) => v@.i64_field(k@) == Some(n as int),
            None => v@.i64_field(k@) is None,
        },
{
    match get(v, k) {
        Some(Json::PosInt(n)) => if *n <= i64::MAX as u64 {
            Some(*n as i64)
        } else {
            None
        },
        Some(Json::NegInt(n)) => Some(*n),
        _ => None,
    }
}

impl Json {
    /// A text value.
    pub fn text(s: &str) -> (r: Json)
        ensures
            r@ == JsonView::Str(s@),
    {
        Json::Str(s.to_owned())
    }

    /// The object without members.
    pub fn object() -> (r: Json)
        ensures
            r@ == JsonView::object(),
    {
        Json::Obj(Object::new())
    }

    /// The object with one more member at its end.
    pub fn with(self, k: &str, v: Json) -> (r: Json)
        ensures
            r@ == self@.with(k@, v@),
    {
        match self {
            Json::Obj(o) => Json::Obj(o.with(k, v)),
            other => other,
        }
    }

    /// The object after the member named `k` is set to `v`; another value
    /// counts as the object without members.
    pub fn set(self, k: &str, v: Json) -> (r: Json)
        ensures
            r@ == self@.set(k@, v@),
    {
        let mut o = match self {
            Json::Obj(o) => o,
            _ => Object::new(),
        };
        o.put(k, v);
        Json::Obj(o)
    }

    /// An integer value.
    pub fn integer(n: i64) -> (r: Json)
        ensures
            r@ == JsonView::Int(n as int),
    {
        if n < 0 {
            Json::NegInt(n)
        } else {
            Json::PosInt(n as u64)
        }
    }
}

/// The array with one item.
pub fn one(j: Json) -> (r: Json)
    ensures
        r@ == JsonView::Arr(seq![j@]),
{
    let mut v: Vec<Json> = Vec::new();
    v.push(j);
    proof {
        lemma_array_view(v);
        assert(views(v@) =~= seq![j@]);
    }
    Json::Arr(v)
}

/// The array without items.
pub fn empty_array() -> (r: Json)
    ensures
        r@ == JsonView::Arr(Seq::empty()),
{
    let v: Vec<Json> = Vec::new();
    proof {
        lemma_array_view(v);
        assert(views(v@) =~= Seq::empty());
    }
    Json::Arr(v)
}

/// The values of a list, each once more.
pub fn copy_all(a: &[Json]) -> (r: Vec<Json>)
    ensures
        views(r@) == views(a@),
{
    let mut r: Vec<Json> = Vec::new();
    let mut i: usize = 0;
    while i < a.len()
        invariant
            i <= a@.len(),
            r@.len() == i,
            forall|k: int| 0 <= k < i ==> r@[k]@ == a@[k]@,
        decreases a.len() - i,
    {
        r.push(a[i].clone());
        i += 1;
    }
    assert(views(r@) =~= views(a@));
    r
}

// ---------------------------------------------------------------------------
// Reading and printing
// ---------------------------------------------------------------------------

/// `serde_json::Value`, the outside crate's JSON tree.
#[verifier::external_type_specification]
#[verifier::external_body]
pub struct ExValue(serde_json::Value);

/// A number as `serde_json` holds it.
#[verifier::external_type_specification]
#[verifier::external_body]
pub struct ExNumber(serde_json::Number);

/// What `serde_json::from_str` reads from a text: the tree, or none where the
/// text is not JSON.
pub uninterp spec fn parsed(text: Seq<char>) -> Option<JsonView>;

/// What `serde_json::Value::to_string` prints for a value: JSON without blanks,
/// members in order.
pub uninterp spec fn compact(v: JsonView) -> Seq<char>;

/// What `serde_json::to_string_pretty` prints for a value: JSON over several
/// lines, indented by two blanks, members in order.
pub uninterp spec fn pretty(v: JsonView) -> Seq<char>;

/// The most levels of arrays and objects that are read.
pub const MAX_DEPTH: u8 = 127;

/// Whether a printed value reads back as it was: it has at most `depth` levels of
/// arrays and objects, no object has two members of one name, and every number is
/// an integer of 64 bits.
pub open spec fn plain(v: JsonView, depth: int) -> bool
    decreases depth,
{
    match v {
        JsonView::Int(n) => i64::MIN <= n <= u64::MAX,
        JsonView::Frac(_) => false,
        JsonView::Arr(a) => depth > 0 && forall|i: int|
            0 <= i < a.len() ==> plain(#[trigger] a[i], depth - 1),
        JsonView::Obj(m) => depth > 0 && distinct_names(m) && forall|i: int|
            0 <= i < m.len() ==> plain((#[trigger] m[i]).1, depth - 1),
        _ => true,
    }
}

/// An object stays plain when it gets one more member.
pub proof fn lemma_plain_with(v: JsonView, k: Seq<char>, x: JsonView, depth: int)
    requires
        v is Obj,
        plain(v, depth),
        v.field(k) is None,
        plain(x, depth - 1),
    ensures
        plain(v.with(k, x), depth),
{
    let m = v->Obj_0;
    let n = m.push((k, x));
    lemma_position(m, k);
    assert forall|i: int| 0 <= i < n.len() implies plain((#[trigger] n[i]).1, depth - 1) by {
        if i < m.len() {
            assert(n[i] == m[i]);
        }
    }
    assert forall|i: int, j: int| 0 <= i < j < n.len() implies #[trigger] n[i].0
        != #[trigger] n[j].0 by {
        assert(n[i] == m[i]);
        if j < m.len() {
            assert(n[j] == m[j]);
        }
    }
}

/// What is plain with few levels is plain with more.
pub proof fn lemma_plain_deeper(v: JsonView, few: int, more: int)
    requires
        plain(v, few),
        few <= more,
    ensures
        plain(v, more),
    decreases few,
{
    match v {
        JsonView::Arr(a) => {
            assert forall|i: int| 0 <= i < a.len() implies plain(#[trigger] a[i], more - 1) by {
                lemma_plain_deeper(a[i], few - 1, more - 1);
            }
        },
        JsonView::Obj(m) => {
            assert forall|i: int| 0 <= i < m.len() implies plain(
                (#[trigger] m[i]).1,
                more - 1,
            ) by {
                lemma_plain_deeper(m[i].1, few - 1, more - 1);
            }
        },
        _ => {},
    }
}

/// The number that a `serde_json::Number` holds. Nothing is stated of it: it only
/// goes out of [`parse_text`]. A number that is not an integer is given by its
/// printed form, its sign and the nearest integer.
#[verifier::external_body]
fn from_number(n: &serde_json::Number) -> (r: Json) {
    match (n.as_u64(), n.as_i64(), n.as_f64().unwrap_or_default()) {
        (Some(u), _, _) => Json::PosInt(u),
        (_, Some(i), _) => Json::NegInt(i),
        (_, _, f) => Json::Frac(
            Fraction { text: n.to_string(), zero: f == -f, positive: f > -f, rounded: f.round() as i64 },
        ),
    }
}

/// The tree that a `serde_json::Value` holds. Nothing is stated of it: it only
/// goes out of [`parse_text`].
#[verifier::external_body]
fn from_value(v: &serde_json::Value) -> (r: Json) {
    match v {
        serde_json::Value::Null => Json::Null,
        serde_json::Value::Bool(b) => Json::Bool(*b),
        serde_json::Value::Number(n) => from_number(n),
        serde_json::Value::String(s) => Json::Str(s.clone()),
        serde_json::Value::Array(a) => Json::Arr(a.iter().map(from_value).collect()),
        serde_json::Value::Object(o) => Json::Obj(
            Object { entries: o.iter().map(|e| (e.0.clone(), from_value(e.1))).collect() },
        ),
    }
}

/// The `serde_json::Value` that holds the same tree. Nothing is stated of it:
/// it only goes into [`compact_text`] and [`pretty_text`].
#[verifier::external_body]
fn to_value(j: &Json) -> (r: serde_json::Value) {
    match j {
        Json::Null => serde_json::Value::Null,
        Json::Bool(b) => serde_json::Value::Bool(*b),
        Json::PosInt(n) => serde_json::Value::from(*n),
        Json::NegInt(n) => serde_json::Value::from(*n),
        Json::Frac(f) => serde_json::from_str(&f.text).unwrap_or(serde_json::Value::Null),
        Json::Str(s) => serde_json::Value::String(s.clone()),
        Json::Arr(a) => serde_json::Value::Array(a.iter().map(to_value).collect()),
        Json::Obj(o) => serde_json::Value::Object(
            o.entries.iter().map(|e| (e.0.clone(), to_value(&e.1))).collect(),
        ),
    }
}

/// `serde_json::from_str` on a text: what it reads is named by [`parsed`] and
/// depends on the text alone.
#[verifier::external_body]
fn parse_text(s: &str) -> (r: Option<Json>)
    ensures
        match r {
            Some(j) => parsed(s@) == Some(j@),
            None => parsed(s@) is None,
        },
{
    serde_json::from_str::<serde_json::Value>(s).ok().map(|v| from_value(&v))
}

/// `serde_json::Value::to_string` on the value that holds the same tree: the
/// text is named by [`compact`] and depends on the tree alone. It is never blank. A
/// plain value reads back from it as it was: members keep their order, and no text
/// or 64-bit integer is changed on the way. Nothing is said of other numbers, which
/// are not always read back to the last bit.
#[verifier::external_body]
pub(crate) fn compact_text(j: &Json) -> (r: String)
    ensures
        r@ == compact(j@),
        text::trimmed(r@).len() > 0,
        plain(j@, MAX_DEPTH as int) ==> parsed(r@) == Some(j@),
{
    to_value(j).to_string()
}

/// `serde_json::to_string_pretty` on the value that holds the same tree: the
/// text is named by [`pretty`] and depends on the tree alone. A plain value reads
/// back from it as it was, as from [`compact_text`].
#[verifier::external_body]
fn pretty_text(j: &Json) -> (r: String)
    ensures
        r@ == pretty(j@),
        plain(j@, MAX_DEPTH as int) ==> parsed(r@) == Some(j@),
{
    serde_json::to_string_pretty(&to_value(j)).unwrap_or_default()
}

/// The value that a file's text holds, none where it is not JSON.
pub fn parse_stored(text: &str) -> (r: Option<Json>)
    ensures
        match r {
            Some(j) => parsed(text@) == Some(j@),
            None => parsed(text@) is None,
        },
{
    parse_text(text)
}

/// The value that a text holds; the object without members where it is empty or
/// not JSON.
pub open spec fn maybe(text: Seq<char>) -> JsonView {
    if text.len() == 0 {
        JsonView::object()
    } else {
        or_object(parsed(text))
    }
}

/// A value, or the object without members where there is none.
pub open spec fn or_object(v: Option<JsonView>) -> JsonView {
    match v {
        Some(x) => x,
        None => JsonView::object(),
    }
}

/// Reads what a host wrote: what is not JSON counts as the object without
/// members.
pub fn parse_json_maybe(text: &str) -> (r: Json)
    ensures
        r@ == maybe(text@),
{
    if text.is_empty() {
        return Json::object();
    }
    match parse_text(text) {
        Some(j) => j,
        None => Json::object(),
    }
}

/// A value as it is handed to a host or kept in a file: on one line, without a line
/// end. A plain value reads back as it was.
pub fn print_compact(v: &Json) -> (r: String)
    ensures
        r@ == compact(v@),
        text::trimmed(r@).len() > 0,
        plain(v@, MAX_DEPTH as int) ==> parsed(r@) == Some(v@),
{
    compact_text(v)
}

/// A value as it is shown to a person or written to a file: over several lines. A
/// plain value reads back as it was.
pub fn print_pretty(v: &Json) -> (r: String)
    ensures
        r@ == pretty(v@),
        plain(v@, MAX_DEPTH as int) ==> parsed(r@) == Some(v@),
{
    pretty_text(v)
}

/// What the one member of a name gives when it is looked for by that name.
pub proof fn lemma_picked(v: JsonView, k: &str, x: JsonView)
    requires
        v.field(k@) == Some(x),
    ensures
        x.truthy() ==> v.pick(seq![k]) == Some(x),
        !x.truthy() ==> v.pick(seq![k]) is None,
        x matches JsonView::Str(s) ==> v.pick_text(seq![k]) == s,
{
    let keys = seq![k];
    assert(keys[0] == k);
    assert(keys.drop_first() =~= Seq::empty());
    assert(v.pick(keys.drop_first()) is None);
    if let JsonView::Str(s) = x {
        if s.len() == 0 {
            assert(s =~= Seq::empty());
        }
    }
}

/// Where there is no member of a name, nothing is found by that name.
pub proof fn lemma_unpicked(v: JsonView, k: &str)
    requires
        v.field(k@) is None,
    ensures
        v.pick(seq![k]) is None,
        v.pick_text(seq![k]) == Seq::<char>::empty(),
{
    let keys = seq![k];
    assert(keys[0] == k);
    assert(keys.drop_first() =~= Seq::empty());
    assert(v.pick(keys.drop_first()) is None);
}

/// Of several names the first that gives something counts.
pub proof fn law_the_first_name_counts(v: JsonView, keys: Seq<&str>, i: int)
    requires
        0 <= i < keys.len(),
        forall|j: int|
            0 <= j < i ==> (v.field((#[trigger] keys[j])@) matches Some(x) ==> !x.truthy()),
        v.field(keys[i]@) matches Some(x) && x.truthy(),
    ensures
        v.pick(keys) == v.field(keys[i]@),
    decreases keys.len(),
{
    if i > 0 {
        let rest = keys.drop_first();
        assert(rest[i - 1] == keys[i]);
        assert forall|j: int| 0 <= j < i - 1 implies (v.field((#[trigger] rest[j])@) matches Some(
            x,
        ) ==> !x.truthy()) by {
            assert(rest[j] == keys[j + 1]);
        }
        assert(v.field(keys[0]@) matches Some(x) ==> !x.truthy());
        law_the_first_name_counts(v, rest, i - 1);
    }
}

/// Where no name gives anything, nothing is found.
pub proof fn law_no_name_counts(v: JsonView, keys: Seq<&str>)
    requires
        forall|j: int|
            0 <= j < keys.len() ==> (v.field((#[trigger] keys[j])@) matches Some(x) ==> !x.truthy()),
    ensures
        v.pick(keys) is None,
        v.pick_text(keys) == Seq::<char>::empty(),
        !v.pick_flag(keys),
    decreases keys.len(),
{
    if keys.len() > 0 {
        let rest = keys.drop_first();
        assert forall|j: int| 0 <= j < rest.len() implies (v.field(
            (#[trigger] rest[j])@,
        ) matches Some(x) ==> !x.truthy()) by {
            assert(rest[j] == keys[j + 1]);
        }
        assert(v.field(keys[0]@) matches Some(x) ==> !x.truthy());
        law_no_name_counts(v, rest);
    }
}

/// What counts as true: everything but nothing, no, zero and the empty text.
pub proof fn law_what_counts_as_true(s: Seq<char>, n: int, a: Seq<JsonView>, m: Members)
    ensures
        !JsonView::Null.truthy(),
        !JsonView::Bool(false).truthy(),
        JsonView::Bool(true).truthy(),
        JsonView::Int(n).truthy() <==> n != 0,
        JsonView::Str(s).truthy() <==> s.len() > 0,
        JsonView::Arr(a).truthy(),
        JsonView::Obj(m).truthy(),
{
}

/// What a value is as text.
pub proof fn law_values_as_text(s: Seq<char>, n: int, a: Seq<JsonView>, m: Members)
    ensures
        JsonView::Str(s).lossy() == s,
        JsonView::Int(n).lossy() == text::int_text(n),
        JsonView::Bool(true).lossy() == "true"@,
        JsonView::Bool(false).lossy() == "false"@,
        JsonView::Null.lossy() == Seq::<char>::empty(),
        JsonView::Arr(a).lossy() == Seq::<char>::empty(),
        JsonView::Obj(m).lossy() == Seq::<char>::empty(),
{
}

/// Taking a member out leaves none of its name, where no two share one, and every
/// other as it was.
pub proof fn law_removed_is_gone(m: Members, k: Seq<char>, other: Seq<char>)
    requires
        distinct_names(m),
    ensures
        lookup(removed(m, k), k) is None,
        other != k ==> lookup(removed(m, k), other) == lookup(m, other),
{
    let n = removed(m, k);
    let p = position(m, k);
    lemma_position(m, k);
    lemma_position(n, k);
    lemma_position(m, other);
    lemma_position(n, other);
    if p < m.len() {
        assert forall|j: int| 0 <= j < n.len() implies (#[trigger] n[j]).0 != k by {
            if j < p {
                assert(n[j] == m[j]);
            } else {
                assert(n[j] == m[j + 1]);
                assert(m[p].0 != m[j + 1].0);
            }
        }
        if position(n, k) < n.len() {
            assert(n[position(n, k)].0 != k);
        }
        if other != k {
            let a = position(m, other);
            let b = position(n, other);
            let there = if a < p {
                a
            } else {
                a - 1
            };
            if a < m.len() {
                assert(n[there] == m[a]);
                if b < there {
                    if b < p {
                        assert(n[b] == m[b]);
                        assert(m[b].0 != other);
                    } else {
                        assert(n[b] == m[b + 1]);
                        assert(m[b + 1].0 != other);
                    }
                }
                if there < b {
                    assert(n[there].0 != other);
                }
            } else if b < n.len() {
                if b < p {
                    assert(n[b] == m[b]);
                    assert(m[b].0 != other);
                } else {
                    assert(n[b] == m[b + 1]);
                    assert(m[b + 1].0 != other);
                }
            }
        }
    }
}

} // verus!
