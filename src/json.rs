use vstd::prelude::*;

verus! {

/// Mathematical model of a JSON document.
pub enum Json {
    Null,
    Bool(bool),
    Num(Seq<char>),
    Str(Seq<char>),
    Arr(Seq<Json>),
    Obj(Seq<(Seq<char>, Json)>),
}

/// A JSON document. Numbers keep their literal text; objects keep the order of their members.
#[derive(Debug, PartialEq, Eq)]
pub enum JsonValue {
    Null,
    Bool(bool),
    Number(String),
    Str(String),
    Array(Vec<JsonValue>),
    Object(Vec<(String, JsonValue)>),
}

pub open spec fn items_view(items: Seq<JsonValue>) -> Seq<Json>
    decreases items,
{
    if items.len() == 0 {
        Seq::empty()
    } else {
        items_view(items.drop_last()).push(items.last().view_json())
    }
}

pub open spec fn members_view(members: Seq<(String, JsonValue)>) -> Seq<(Seq<char>, Json)>
    decreases members,
{
    if members.len() == 0 {
        Seq::empty()
    } else {
        let last = members.last();
        proof {
            assert(decreases_to!(members => members[members.len() - 1]));
        }
        members_view(members.drop_last()).push((last.0@, last.1.view_json()))
    }
}

impl JsonValue {
    pub open spec fn view_json(&self) -> Json
        decreases self,
    {
        match self {
            JsonValue::Null => Json::Null,
            JsonValue::Bool(b) => Json::Bool(*b),
            JsonValue::Number(n) => Json::Num(n@),
            JsonValue::Str(s) => Json::Str(s@),
            JsonValue::Array(v) => Json::Arr(items_view(v@)),
            JsonValue::Object(m) => Json::Obj(members_view(m@)),
        }
    }
}


/// Members of an object, in order.
pub type Members = Seq<(Seq<char>, Json)>;

/// Index of the first member named `k`, or -1 when there is none.
pub open spec fn key_index(m: Members, k: Seq<char>) -> int
    decreases m.len(),
{
    if m.len() == 0 {
        -1
    } else if m[0].0 == k {
        0
    } else {
        let r = key_index(m.subrange(1, m.len() as int), k);
        if r < 0 {
            -1
        } else {
            r + 1
        }
    }
}

pub open spec fn unique_keys(m: Members) -> bool {
    forall|i: int, j: int| 0 <= i < j < m.len() ==> m[i].0 != m[j].0
}

impl Json {
    /// Every object in the document names each of its members once.
    pub open spec fn wf(self) -> bool
        decreases self,
    {
        match self {
            Json::Arr(items) => forall|i: int| 0 <= i < items.len() ==> (#[trigger] items[i]).wf(),
            Json::Obj(m) => unique_keys(m) && forall|i: int|
                0 <= i < m.len() ==> (#[trigger] m[i]).1.wf(),
            _ => true,
        }
    }
}

/// Deep merge: the base wins on every leaf; the overlay fills in missing members and
/// deepens objects that both sides hold.
pub open spec fn merged(base: Json, over: Json) -> Json
    decreases over, 0nat,
{
    match base {
        Json::Obj(b) => match over {
            Json::Obj(o) => Json::Obj(merged_base(b, o) + missing(b, o)),
            _ => base,
        },
        _ => base,
    }
}

/// A member of the base after merging the overlay's members into it.
pub open spec fn merged_member(e: (Seq<char>, Json), o: Members) -> (Seq<char>, Json)
    decreases o, 1nat,
{
    let j = key_index(o, e.0);
    if 0 <= j < o.len() {
        proof {
            assert(decreases_to!(o => o[j]));
        }
        (e.0, merged(e.1, o[j].1))
    } else {
        e
    }
}

/// The base's members, each merged with the overlay member of the same name.
pub open spec fn merged_base(b: Members, o: Members) -> Members
    decreases o, 2nat + b.len(),
{
    if b.len() == 0 {
        Seq::empty()
    } else {
        merged_base(b.drop_last(), o).push(merged_member(b.last(), o))
    }
}

/// The overlay's members whose names the base lacks, in overlay order.
pub open spec fn missing(b: Members, o: Members) -> Members
    decreases o.len(),
{
    if o.len() == 0 {
        Seq::empty()
    } else if key_index(b, o.last().0) < 0 {
        missing(b, o.drop_last()).push(o.last())
    } else {
        missing(b, o.drop_last())
    }
}


pub proof fn lemma_key_index(m: Members, k: Seq<char>)
    ensures
        -1 <= key_index(m, k) < m.len(),
        key_index(m, k) >= 0 ==> m[key_index(m, k)].0 == k,
        forall|i: int| 0 <= i < key_index(m, k) ==> m[i].0 != k,
        key_index(m, k) < 0 ==> forall|i: int| 0 <= i < m.len() ==> m[i].0 != k,
    decreases m.len(),
{
    if m.len() > 0 && m[0].0 != k {
        let t = m.subrange(1, m.len() as int);
        lemma_key_index(t, k);
        assert forall|i: int| 0 <= i < key_index(m, k) implies m[i].0 != k by {
            if i > 0 {
                assert(m[i] == t[i - 1]);
            }
        }
        if key_index(m, k) < 0 {
            assert forall|i: int| 0 <= i < m.len() implies m[i].0 != k by {
                if i > 0 {
                    assert(m[i] == t[i - 1]);
                }
            }
        }
    }
}

proof fn lemma_unique_index(m: Members, k: int)
    requires
        unique_keys(m),
        0 <= k < m.len(),
    ensures
        key_index(m, m[k].0) == k,
{
    lemma_key_index(m, m[k].0);
}

proof fn lemma_merged_base(b: Members, o: Members)
    ensures
        merged_base(b, o).len() == b.len(),
        forall|i: int| 0 <= i < b.len() ==> #[trigger] merged_base(b, o)[i] == merged_member(b[i], o),
    decreases b.len(),
{
    if b.len() > 0 {
        lemma_merged_base(b.drop_last(), o);
    }
}

proof fn lemma_missing(b: Members, o: Members)
    ensures
        forall|p: int| 0 <= p < missing(b, o).len() ==> exists|k: int|
            0 <= k < o.len() && #[trigger] missing(b, o)[p] == o[k] && key_index(b, o[k].0) < 0,
        forall|k: int| 0 <= k < o.len() && key_index(b, o[k].0) < 0 ==> exists|p: int|
            0 <= p < missing(b, o).len() && #[trigger] missing(b, o)[p] == o[k],
    decreases o.len(),
{
    if o.len() > 0 {
        let o2 = o.drop_last();
        lemma_missing(b, o2);
        let r = missing(b, o2);
        assert forall|p: int| 0 <= p < missing(b, o).len() implies exists|k: int|
            0 <= k < o.len() && #[trigger] missing(b, o)[p] == o[k] && key_index(b, o[k].0) < 0 by {
            if p < r.len() {
                let k = choose|k: int| 0 <= k < o2.len() && r[p] == o2[k] && key_index(b, o2[k].0) < 0;
                assert(o[k] == o2[k]);
            } else {
                assert(missing(b, o)[p] == o[o.len() - 1]);
            }
        }
        assert forall|k: int| 0 <= k < o.len() && key_index(b, o[k].0) < 0 implies exists|p: int|
            0 <= p < missing(b, o).len() && #[trigger] missing(b, o)[p] == o[k] by {
            if k < o2.len() {
                assert(o[k] == o2[k]);
                let p = choose|p: int| 0 <= p < r.len() && #[trigger] r[p] == o2[k];
                assert(missing(b, o)[p] == r[p]);
            } else {
                assert(missing(b, o)[r.len() as int] == o[k]);
            }
        }
    }
}

proof fn lemma_missing_empty(b: Members, o: Members)
    requires
        forall|k: int| 0 <= k < o.len() ==> key_index(b, #[trigger] o[k].0) >= 0,
    ensures
        missing(b, o) == Seq::<(Seq<char>, Json)>::empty(),
    decreases o.len(),
{
    if o.len() > 0 {
        let o2 = o.drop_last();
        assert forall|k: int| 0 <= k < o2.len() implies key_index(b, #[trigger] o2[k].0) >= 0 by {
            assert(o2[k] == o[k]);
        }
        lemma_missing_empty(b, o2);
        assert(key_index(b, o[o.len() - 1].0) >= 0);
    }
}

/// Every name of the overlay is a name of the merged object.
proof fn lemma_merge_names(b: Members, o: Members)
    ensures
        forall|k: int|
            0 <= k < o.len() ==> key_index(merged_base(b, o) + missing(b, o), #[trigger] o[k].0) >= 0,
{
    let m = merged_base(b, o) + missing(b, o);
    lemma_merged_base(b, o);
    lemma_missing(b, o);
    assert forall|k: int| 0 <= k < o.len() implies key_index(m, #[trigger] o[k].0) >= 0 by {
        lemma_key_index(b, o[k].0);
        lemma_key_index(m, o[k].0);
        let j = key_index(b, o[k].0);
        if j >= 0 {
            assert(m[j] == merged_member(b[j], o));
        } else {
            let p = choose|p: int| 0 <= p < missing(b, o).len() && #[trigger] missing(b, o)[p] == o[k];
            assert(m[merged_base(b, o).len() + p] == o[k]);
        }
    }
}

/// Merging a well-formed document into itself changes nothing.
pub proof fn lemma_merge_self(x: Json)
    requires
        x.wf(),
    ensures
        merged(x, x) == x,
    decreases x,
{
    if let Json::Obj(s) = x {
        lemma_merged_base(s, s);
        assert forall|k: int| 0 <= k < s.len() implies key_index(s, #[trigger] s[k].0) >= 0 by {
            lemma_unique_index(s, k);
        }
        lemma_missing_empty(s, s);
        assert forall|i: int| 0 <= i < s.len() implies #[trigger] merged_base(s, s)[i] == s[i] by {
            lemma_unique_index(s, i);
            assert(s[i].1.wf());
            lemma_merge_self(s[i].1);
        }
        assert(merged_base(s, s) + missing(s, s) =~= s);
    }
}

/// Merging the same overlay twice gives what merging it once gives.
pub proof fn lemma_merge_idempotent(a: Json, b: Json)
    requires
        a.wf(),
        b.wf(),
    ensures
        merged(merged(a, b), b) == merged(a, b),
    decreases b,
{
    if let Json::Obj(x) = a {
        if let Json::Obj(o) = b {
            let m = merged_base(x, o) + missing(x, o);
            lemma_merged_base(x, o);
            lemma_merged_base(m, o);
            lemma_missing(x, o);
            lemma_merge_names(x, o);
            lemma_missing_empty(m, o);
            assert forall|i: int| 0 <= i < m.len() implies #[trigger] merged_base(m, o)[i] == m[i] by {
                if i < x.len() {
                    let j = key_index(o, x[i].0);
                    lemma_key_index(o, x[i].0);
                    if 0 <= j {
                        assert(x[i].1.wf());
                        assert(o[j].1.wf());
                        lemma_merge_idempotent(x[i].1, o[j].1);
                    }
                } else {
                    let p = i - x.len();
                    let k = choose|k: int|
                        0 <= k < o.len() && #[trigger] missing(x, o)[p] == o[k] && key_index(x, o[k].0) < 0;
                    assert(m[i] == o[k]);
                    lemma_unique_index(o, k);
                    assert(o[k].1.wf());
                    lemma_merge_self(o[k].1);
                }
            }
            assert(merged_base(m, o) + missing(m, o) =~= m);
        }
    }
}

/// The merge keeps every member of the base, in place and under its name, and keeps
/// unchanged each one whose value is not an object.
pub proof fn lemma_merge_keeps_base(a: Json, b: Json)
    ensures
        a is Obj ==> merged(a, b) is Obj,
        a is Obj ==> merged(a, b)->Obj_0.len() >= a->Obj_0.len(),
        forall|i: int|
            #![trigger merged(a, b)->Obj_0[i]]
            a is Obj && 0 <= i < a->Obj_0.len() ==> merged(a, b)->Obj_0[i].0 == a->Obj_0[i].0,
        forall|i: int|
            #![trigger merged(a, b)->Obj_0[i]]
            a is Obj && 0 <= i < a->Obj_0.len() && !(a->Obj_0[i].1 is Obj) ==> merged(a, b)->Obj_0[i]
                == a->Obj_0[i],
{
    if let Json::Obj(x) = a {
        if let Json::Obj(o) = b {
            lemma_merged_base(x, o);
            let m = merged_base(x, o) + missing(x, o);
            assert forall|i: int| 0 <= i < x.len() implies m[i] == merged_member(x[i], o) by {}
        }
    }
}


pub proof fn lemma_items_view(items: Seq<JsonValue>)
    ensures
        items_view(items).len() == items.len(),
        forall|i: int| 0 <= i < items.len() ==> #[trigger] items_view(items)[i] == items[i].view_json(),
    decreases items.len(),
{
    if items.len() > 0 {
        lemma_items_view(items.drop_last());
    }
}

pub proof fn lemma_members_view(m: Seq<(String, JsonValue)>)
    ensures
        members_view(m).len() == m.len(),
        forall|i: int|
            0 <= i < m.len() ==> #[trigger] members_view(m)[i] == (m[i].0@, m[i].1.view_json()),
    decreases m.len(),
{
    if m.len() > 0 {
        lemma_members_view(m.drop_last());
    }
}

pub proof fn lemma_items_push(items: Seq<JsonValue>, x: JsonValue)
    ensures
        items_view(items.push(x)) == items_view(items).push(x.view_json()),
{
    assert(items.push(x).drop_last() =~= items);
}

pub proof fn lemma_members_push(m: Seq<(String, JsonValue)>, x: (String, JsonValue))
    ensures
        members_view(m.push(x)) == members_view(m).push((x.0@, x.1.view_json())),
{
    assert(m.push(x).drop_last() =~= m);
}

/// Position of the member named `key`, found as `key_index` finds it.
pub fn find_member(m: &Vec<(String, JsonValue)>, key: &String) -> (r: Option<usize>)
    ensures
        key_index(members_view(m@), key@) == match r {
            Some(j) => j as int,
            None => -1,
        },
{
    proof {
        lemma_members_view(m@);
    }
    let mut i: usize = 0;
    while i < m.len()
        invariant
            i <= m.len(),
            members_view(m@).len() == m.len(),
            forall|p: int|
                0 <= p < m.len() ==> #[trigger] members_view(m@)[p] == (m@[p].0@, m@[p].1.view_json()),
            forall|p: int| 0 <= p < i ==> members_view(m@)[p].0 != key@,
        decreases m.len() - i,
    {
        if m[i].0 == *key {
            proof {
                lemma_key_index(members_view(m@), key@);
                assert(members_view(m@)[i as int].0 == key@);
            }
            return Some(i);
        }
        i += 1;
    }
    proof {
        lemma_key_index(members_view(m@), key@);
    }
    None
}

impl JsonValue {
    /// A copy of the document.
    pub fn deep_clone(&self) -> (r: JsonValue)
        ensures
            r.view_json() == self.view_json(),
        decreases self,
    {
        match self {
            JsonValue::Null => JsonValue::Null,
            JsonValue::Bool(b) => JsonValue::Bool(*b),
            JsonValue::Number(n) => JsonValue::Number(n.clone()),
            JsonValue::Str(t) => JsonValue::Str(t.clone()),
            JsonValue::Array(v) => {
                let mut out: Vec<JsonValue> = Vec::new();
                let mut i: usize = 0;
                while i < v.len()
                    invariant
                        i <= v.len(),
                        *self == JsonValue::Array(*v),
                        items_view(out@) == items_view(v@.take(i as int)),
                    decreases v.len() - i,
                {
                    proof {
                        assert(decreases_to!(*self => self->Array_0));
                        assert(decreases_to!(*self => v[i as int]));
                    }
                    let c = v[i].deep_clone();
                    proof {
                        lemma_items_push(out@, c);
                        lemma_items_push(v@.take(i as int), v@[i as int]);
                        assert(v@.take(i + 1) =~= v@.take(i as int).push(v@[i as int]));
                    }
                    out.push(c);
                    i += 1;
                }
                assert(v@.take(v.len() as int) =~= v@);
                JsonValue::Array(out)
            },
            JsonValue::Object(m) => {
                let mut out: Vec<(String, JsonValue)> = Vec::new();
                let mut i: usize = 0;
                while i < m.len()
                    invariant
                        i <= m.len(),
                        *self == JsonValue::Object(*m),
                        members_view(out@) == members_view(m@.take(i as int)),
                    decreases m.len() - i,
                {
                    proof {
                        assert(decreases_to!(*self => self->Object_0));
                        assert(decreases_to!(*self => m[i as int].1));
                    }
                    let c = (m[i].0.clone(), m[i].1.deep_clone());
                    proof {
                        lemma_members_push(out@, c);
                        lemma_members_push(m@.take(i as int), m@[i as int]);
                        assert(m@.take(i + 1) =~= m@.take(i as int).push(m@[i as int]));
                    }
                    out.push(c);
                    i += 1;
                }
                assert(m@.take(m.len() as int) =~= m@);
                JsonValue::Object(out)
            },
        }
    }
}

/// Deep merge of `over` into `base`: the base wins on every leaf, the overlay fills in
/// the members that the base lacks and deepens the objects that both hold.
pub fn merge(base: &JsonValue, over: &JsonValue) -> (r: JsonValue)
    ensures
        r.view_json() == merged(base.view_json(), over.view_json()),
    decreases over,
{
    match base {
        JsonValue::Object(b) => match over {
            JsonValue::Object(o) => {
                let ghost bv = members_view(b@);
                let ghost ov = members_view(o@);
                proof {
                    lemma_members_view(b@);
                    lemma_members_view(o@);
                }
                let mut out: Vec<(String, JsonValue)> = Vec::new();
                let mut i: usize = 0;
                while i < b.len()
                    invariant
                        i <= b.len(),
                        *over == JsonValue::Object(*o),
                        bv == members_view(b@),
                        ov == members_view(o@),
                        bv.len() == b.len(),
                        ov.len() == o.len(),
                        forall|p: int| 0 <= p < b.len() ==> #[trigger] bv[p] == (b@[p].0@, b@[p].1.view_json()),
                        forall|p: int| 0 <= p < o.len() ==> #[trigger] ov[p] == (o@[p].0@, o@[p].1.view_json()),
                        members_view(out@) == merged_base(bv.take(i as int), ov),
                    decreases b.len() - i,
                {
                    let key = &b[i].0;
                    let e = match find_member(o, key) {
                        Some(j) => {
                            proof {
                                lemma_key_index(ov, key@);
                                assert(decreases_to!(*over => over->Object_0));
                                assert(decreases_to!(*over => o[j as int].1));
                            }
                            let v = merge(&b[i].1, &o[j].1);
                            (key.clone(), v)
                        },
                        None => (key.clone(), b[i].1.deep_clone()),
                    };
                    proof {
                        lemma_members_push(out@, e);
                        assert(bv.take(i + 1).drop_last() =~= bv.take(i as int));
                        assert(bv.take(i + 1).last() == bv[i as int]);
                        assert((e.0@, e.1.view_json()) == merged_member(bv[i as int], ov));
                    }
                    out.push(e);
                    i += 1;
                }
                assert(bv.take(b.len() as int) =~= bv);
                let mut j: usize = 0;
                while j < o.len()
                    invariant
                        j <= o.len(),
                        bv == members_view(b@),
                        ov == members_view(o@),
                        ov.len() == o.len(),
                        forall|p: int| 0 <= p < o.len() ==> #[trigger] ov[p] == (o@[p].0@, o@[p].1.view_json()),
                        members_view(out@) == merged_base(bv, ov) + missing(bv, ov.take(j as int)),
                    decreases o.len() - j,
                {
                    assert(ov.take(j + 1).drop_last() =~= ov.take(j as int));
                    if find_member(b, &o[j].0).is_none() {
                        let e = (o[j].0.clone(), o[j].1.deep_clone());
                        proof {
                            lemma_members_push(out@, e);
                            assert(merged_base(bv, ov) + missing(bv, ov.take(j + 1)) =~= (
                            merged_base(bv, ov) + missing(bv, ov.take(j as int))).push(ov[j as int]));
                        }
                        out.push(e);
                    }
                    j += 1;
                }
                assert(ov.take(o.len() as int) =~= ov);
                JsonValue::Object(out)
            },
            _ => base.deep_clone(),
        },
        _ => base.deep_clone(),
    }
}


/// The member named `k` of an object.
pub open spec fn member(j: Json, k: Seq<char>) -> Option<Json> {
    match j {
        Json::Obj(m) => {
            let i = key_index(m, k);
            if 0 <= i < m.len() {
                Some(m[i].1)
            } else {
                None
            }
        },
        _ => None,
    }
}

/// `m` with the member `k` set to `v`: in place when `k` is there, else at the end.
pub open spec fn set_member(m: Members, k: Seq<char>, v: Json) -> Members {
    let i = key_index(m, k);
    if 0 <= i < m.len() {
        m.update(i, (k, v))
    } else {
        m.push((k, v))
    }
}

pub open spec fn str_of(j: Option<Json>) -> Option<Seq<char>> {
    match j {
        Some(Json::Str(s)) => Some(s),
        _ => None,
    }
}

impl JsonValue {
    /// The member named `key`, when this is an object that has one.
    pub fn get(&self, key: &str) -> (r: Option<&JsonValue>)
        ensures
            match member(self.view_json(), key@) {
                Some(v) => r matches Some(x) && x.view_json() == v,
                None => r is None,
            },
    {
        match self {
            JsonValue::Object(m) => {
                let k = key.to_owned();
                proof {
                    lemma_members_view(m@);
                    lemma_key_index(members_view(m@), key@);
                }
                match find_member(m, &k) {
                    Some(j) => Some(&m[j].1),
                    None => None,
                }
            },
            _ => None,
        }
    }

    /// The text, when this is a string.
    pub fn as_str(&self) -> (r: Option<&String>)
        ensures
            match self.view_json() {
                Json::Str(s) => r matches Some(x) && x@ == s,
                _ => r is None,
            },
    {
        match self {
            JsonValue::Str(s) => Some(s),
            _ => None,
        }
    }

    /// The items, when this is an array.
    pub fn as_array(&self) -> (r: Option<&Vec<JsonValue>>)
        ensures
            match self.view_json() {
                Json::Arr(items) => r matches Some(v) && items_view(v@) == items,
                _ => r is None,
            },
    {
        match self {
            JsonValue::Array(v) => Some(v),
            _ => None,
        }
    }

    /// The text of the member named `key`, when it is a string.
    pub fn get_str(&self, key: &str) -> (r: Option<&String>)
        ensures
            match str_of(member(self.view_json(), key@)) {
                Some(s) => r matches Some(x) && x@ == s,
                None => r is None,
            },
    {
        match self.get(key) {
            Some(v) => v.as_str(),
            None => None,
        }
    }
}

/// Sets the member `key` of an object's members to `v`.
pub fn put_member(m: &mut Vec<(String, JsonValue)>, key: String, v: JsonValue)
    ensures
        members_view(final(m)@) == set_member(members_view(old(m)@), key@, v.view_json()),
{
    proof {
        lemma_members_view(m@);
        lemma_key_index(members_view(m@), key@);
    }
    match find_member(m, &key) {
        Some(j) => {
            let ghost kv = key@;
            let ghost vv = v.view_json();
            m.set(j, (key, v));
            proof {
                lemma_members_view(m@);
                assert(members_view(m@) =~= set_member(members_view(old(m)@), kv, vv));
            }
        },
        None => {
            proof {
                lemma_members_push(m@, (key, v));
            }
            m.push((key, v));
        },
    }
}

/// A string value.
pub fn jstr(s: &str) -> (r: JsonValue)
    ensures
        r.view_json() == Json::Str(s@),
{
    JsonValue::Str(s.to_owned())
}


/// Setting one member leaves every other member as it was.
pub proof fn lemma_set_member(m: Members, k: Seq<char>, v: Json, k2: Seq<char>)
    ensures
        member(Json::Obj(set_member(m, k, v)), k2) == if k2 == k {
            Some(v)
        } else {
            member(Json::Obj(m), k2)
        },
        set_member(m, k, v).len() == if key_index(m, k) >= 0 {
            m.len()
        } else {
            m.len() + 1
        },
{
    lemma_key_index(m, k);
    lemma_key_index(m, k2);
    let n = set_member(m, k, v);
    lemma_key_index(n, k2);
    let i = key_index(m, k);
    let j = key_index(m, k2);
    let j2 = key_index(n, k2);
    if k2 == k {
        if i < 0 {
            assert(n[m.len() as int].0 == k);
        } else {
            assert(n[i].0 == k);
        }
    } else {
        if j >= 0 {
            assert(n[j].0 == k2);
            if j2 >= 0 && j2 < j {
                assert(n[j2] == m[j2] || j2 == i);
            }
        } else {
            if j2 >= 0 {
                if j2 < m.len() {
                    assert(n[j2] == m[j2] || j2 == i);
                }
            }
        }
    }
}


/// Appends a member.
pub fn push_member(m: &mut Vec<(String, JsonValue)>, key: &str, v: JsonValue)
    ensures
        members_view(final(m)@) == members_view(old(m)@).push((key@, v.view_json())),
{
    let e = (key.to_owned(), v);
    proof {
        lemma_members_push(m@, e);
    }
    m.push(e);
}

/// Appends an item.
pub fn push_item(items: &mut Vec<JsonValue>, v: JsonValue)
    ensures
        items_view(final(items)@) == items_view(old(items)@).push(v.view_json()),
{
    proof {
        lemma_items_push(items@, v);
    }
    items.push(v);
}


proof fn lemma_key_index_concat(s1: Members, s2: Members, k: Seq<char>)
    ensures
        key_index(s1 + s2, k) == if key_index(s1, k) >= 0 {
            key_index(s1, k)
        } else if key_index(s2, k) >= 0 {
            s1.len() + key_index(s2, k)
        } else {
            -1
        },
{
    let s = s1 + s2;
    lemma_key_index(s1, k);
    lemma_key_index(s2, k);
    lemma_key_index(s, k);
    let r = key_index(s, k);
    let i1 = key_index(s1, k);
    let i2 = key_index(s2, k);
    if i1 >= 0 {
        assert(s[i1] == s1[i1]);
        if r >= 0 && r < i1 {
            assert(s[r] == s1[r]);
        }
    } else if i2 >= 0 {
        assert(s[s1.len() + i2] == s2[i2]);
        if r >= 0 && r < s1.len() {
            assert(s[r] == s1[r]);
        }
        if r >= s1.len() && r < s1.len() + i2 {
            assert(s[r] == s2[r - s1.len()]);
        }
    } else {
        if r >= 0 {
            if r < s1.len() {
                assert(s[r] == s1[r]);
            } else {
                assert(s[r] == s2[r - s1.len()]);
            }
        }
    }
}

proof fn lemma_key_index_merged_base(b: Members, o: Members, k: Seq<char>)
    ensures
        key_index(merged_base(b, o), k) == key_index(b, k),
{
    let m = merged_base(b, o);
    lemma_merged_base(b, o);
    lemma_key_index(b, k);
    lemma_key_index(m, k);
    assert forall|i: int| 0 <= i < b.len() implies m[i].0 == b[i].0 by {
        assert(m[i] == merged_member(b[i], o));
    }
}

proof fn lemma_member_missing(b: Members, o: Members, k: Seq<char>)
    requires
        key_index(b, k) < 0,
    ensures
        member(Json::Obj(missing(b, o)), k) == member(Json::Obj(o), k),
    decreases o.len(),
{
    if o.len() > 0 {
        let o2 = o.drop_last();
        let x = o.last();
        lemma_member_missing(b, o2, k);
        assert(o =~= o2 + seq![x]);
        lemma_key_index_concat(o2, seq![x], k);
        lemma_key_index(o2, k);
        let r = missing(b, o2);
        lemma_key_index(r, k);
        if key_index(b, x.0) < 0 {
            assert(missing(b, o) =~= r + seq![x]);
            lemma_key_index_concat(r, seq![x], k);
            lemma_key_index(seq![x], k);
            assert((r + seq![x])[r.len() as int] == x);
            assert((o2 + seq![x])[o2.len() as int] == x);
            if key_index(r, k) >= 0 {
                assert((r + seq![x])[key_index(r, k)] == r[key_index(r, k)]);
                assert((o2 + seq![x])[key_index(o2, k)] == o2[key_index(o2, k)]);
            }
        } else {
            assert(x.0 != k);
            lemma_key_index(seq![x], k);
            if key_index(o2, k) >= 0 {
                assert((o2 + seq![x])[key_index(o2, k)] == o2[key_index(o2, k)]);
            }
        }
    }
}

/// What the merge holds under each name: a name of the base keeps the base's value,
/// merged with the overlay's value of that name when there is one (so a value that is
/// not an object stays as it was); a name only the overlay has gets the overlay's value.
pub proof fn lemma_merge_members(a: Json, b: Json, k: Seq<char>)
    requires
        a is Obj,
        b is Obj,
    ensures
        member(a, k) is Some ==> member(merged(a, b), k) == Some(
            match member(b, k) {
                Some(bv) => merged(member(a, k)->0, bv),
                None => member(a, k)->0,
            },
        ),
        member(a, k) is Some && !(member(a, k)->0 is Obj) ==> member(merged(a, b), k) == member(a, k),
        member(a, k) is None ==> member(merged(a, b), k) == member(b, k),
{
    let x = a->Obj_0;
    let o = b->Obj_0;
    let mb = merged_base(x, o);
    let ms = missing(x, o);
    lemma_key_index_concat(mb, ms, k);
    lemma_key_index_merged_base(x, o, k);
    lemma_merged_base(x, o);
    lemma_key_index(x, k);
    lemma_key_index(o, k);
    let i = key_index(x, k);
    if i >= 0 {
        assert((mb + ms)[i] == mb[i]);
        assert(mb[i] == merged_member(x[i], o));
    } else {
        lemma_member_missing(x, o, k);
        lemma_key_index(ms, k);
        if key_index(ms, k) >= 0 {
            assert((mb + ms)[mb.len() + key_index(ms, k)] == ms[key_index(ms, k)]);
        }
    }
}

} // verus!
