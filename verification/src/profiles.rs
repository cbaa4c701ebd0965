//! Face profiles: the bookkeeping behind profile creation and update, the
//! photo slots of a profile, and the listing order.

use vstd::prelude::*;
use crate::api::{ApiError, BAD_REQUEST, NOT_FOUND, SERVICE_UNAVAILABLE, UNPROCESSABLE_ENTITY};
use crate::codec::{base64_standard, encode_base64};
use crate::text::{decimal, decimal_string, digit_char, trim, trimmed};
use vstd::set_lib::{lemma_int_range, lemma_len_subset, lemma_map_size, set_int_range};

verus! {

/// At most this many photos per profile.
pub const MAX_PHOTOS: usize = 6;

/// Length of a face embedding.
pub const EMBEDDING_DIM: usize = 512;

/// Side of a profile thumbnail.
pub const THUMBNAIL_SIZE: u32 = 128;

/// Body of a profile creation or update.
pub struct ProfileBody {
    pub name: Option<String>,
    pub description: Option<String>,
}

/// The name and description of a new profile: the trimmed name, which must
/// not be empty, and the description (empty when absent).
pub fn new_profile_fields(body: ProfileBody) -> (r: Result<(String, String), ApiError>)
    ensures
        r is Ok <==> (body.name matches Some(n) && trimmed(n@).len() > 0),
        r matches Ok((name, description)) ==> {
            &&& name@ == trimmed(body.name->0@)
            &&& description@ == match body.description {
                Some(d) => d@,
                None => Seq::<char>::empty(),
            }
        },
        r matches Err(e) ==> e.status == BAD_REQUEST && e.message@ == "name is required"@,
{
    let name = match &body.name {
        Some(n) => {
            let t = trim(n.as_str());
            if t.is_empty() {
                None
            } else {
                Some(String::from_str(t))
            }
        },
        None => None,
    };
    match name {
        Some(name) => {
            let description = match body.description {
                Some(d) => d,
                None => String::new(),
            };
            Ok((name, description))
        },
        None => Err(ApiError { status: BAD_REQUEST, message: String::from_str("name is required") }),
    }
}

/// Apply an update to a profile's name and description: a given name is
/// trimmed and must not be empty; a given description replaces the old one.
pub fn apply_profile_update(name: &String, description: &String, body: ProfileBody) -> (r: Result<
    (String, String),
    ApiError,
>)
    ensures
        r is Err <==> (body.name matches Some(n) && trimmed(n@).len() == 0),
        r matches Ok((new_name, new_description)) ==> {
            &&& new_name@ == match body.name {
                Some(n) => trimmed(n@),
                None => name@,
            }
            &&& new_description@ == match body.description {
                Some(d) => d@,
                None => description@,
            }
        },
        r matches Err(e) ==> e.status == BAD_REQUEST && e.message@ == "name cannot be empty"@,
{
    let new_name = match &body.name {
        Some(n) => {
            let t = trim(n.as_str());
            if t.is_empty() {
                return Err(ApiError { status: BAD_REQUEST, message: String::from_str("name cannot be empty") });
            }
            String::from_str(t)
        },
        None => name.clone(),
    };
    let new_description = match body.description {
        Some(d) => d,
        None => description.clone(),
    };
    Ok((new_name, new_description))
}

/// The file name of photo slot `i`: `photo_<i>.jpg`.
pub open spec fn photo_name(i: nat) -> Seq<char> {
    "photo_"@ + decimal(i) + ".jpg"@
}

/// `photos` lists a photo with this file name.
pub open spec fn has_photo(photos: Seq<String>, name: Seq<char>) -> bool {
    exists|j: int| 0 <= j < photos.len() && (#[trigger] photos[j])@ == name
}

/// The file name of photo slot `idx`.
pub fn photo_file_name(idx: usize) -> (s: String)
    ensures
        s@ == photo_name(idx as nat),
{
    let mut s = String::from_str("photo_");
    let d = decimal_string(idx as u64);
    s.append(d.as_str());
    s.append(".jpg");
    s
}

/// Whether `photos` lists the file name `name`.
pub fn contains_photo(photos: &Vec<String>, name: &String) -> (r: bool)
    ensures
        r == has_photo(photos@, name@),
{
    let mut j: usize = 0;
    while j < photos.len()
        invariant
            j <= photos@.len(),
            forall|k: int| 0 <= k < j ==> (#[trigger] photos@[k])@ != name@,
        decreases photos@.len() - j,
    {
        if photos[j] == *name {
            return true;
        }
        j = j + 1;
    }
    false
}

/// The slot for the next photo: the lowest slot below `MAX_PHOTOS` whose
/// file is not listed, or the number of photos when all are taken.
pub open spec fn next_photo_slot(photos: Seq<String>) -> nat {
    if exists|i: nat| i < MAX_PHOTOS && !has_photo(photos, #[trigger] photo_name(i)) {
        choose|i: nat|
            i < MAX_PHOTOS && !has_photo(photos, #[trigger] photo_name(i)) && forall|k: nat|
                k < i ==> has_photo(photos, #[trigger] photo_name(k))
    } else {
        photos.len()
    }
}

/// The slot for the next photo.
pub fn next_photo_index(photos: &Vec<String>) -> (idx: usize)
    ensures
        idx == next_photo_slot(photos@),
        idx < MAX_PHOTOS ==> !has_photo(photos@, photo_name(idx as nat)) && forall|k: nat|
            k < idx ==> has_photo(photos@, #[trigger] photo_name(k)),
        idx >= MAX_PHOTOS ==> idx == photos@.len() && forall|k: nat|
            k < MAX_PHOTOS ==> has_photo(photos@, #[trigger] photo_name(k)),
{
    let mut i: usize = 0;
    while i < MAX_PHOTOS
        invariant
            i <= MAX_PHOTOS,
            forall|k: nat| k < i ==> has_photo(photos@, #[trigger] photo_name(k)),
        decreases MAX_PHOTOS - i,
    {
        let name = photo_file_name(i);
        if !contains_photo(photos, &name) {
            proof {
                lemma_next_photo_slot_lowest(photos@, i as nat);
            }
            return i;
        }
        i = i + 1;
    }
    assert(photos@.len() >= MAX_PHOTOS) by {
        lemma_all_slots_taken(photos@);
    }
    photos.len()
}

/// A slot below `MAX_PHOTOS` whose file is not listed, while every lower
/// slot's file is, is the next photo slot.
proof fn lemma_next_photo_slot_lowest(photos: Seq<String>, i: nat)
    requires
        i < MAX_PHOTOS,
        !has_photo(photos, photo_name(i)),
        forall|k: nat| k < i ==> has_photo(photos, #[trigger] photo_name(k)),
    ensures
        next_photo_slot(photos) == i,
{
    let j = next_photo_slot(photos);
    assert(j < MAX_PHOTOS && !has_photo(photos, photo_name(j)) && forall|k: nat|
        k < j ==> has_photo(photos, #[trigger] photo_name(k)));
    if j < i {
        assert(has_photo(photos, photo_name(j)));
    } else if i < j {
        assert(has_photo(photos, photo_name(i)));
    }
}

/// While a profile has room for another photo, the next photo goes to a
/// slot below `MAX_PHOTOS` whose file is not listed: a new photo never
/// replaces a listed one.
pub proof fn lemma_room_gives_free_slot(photos: Seq<String>)
    requires
        photos.len() < MAX_PHOTOS,
    ensures
        next_photo_slot(photos) < MAX_PHOTOS,
        !has_photo(photos, photo_name(next_photo_slot(photos))),
{
    if forall|k: nat| k < MAX_PHOTOS ==> has_photo(photos, #[trigger] photo_name(k)) {
        lemma_all_slots_taken(photos);
    }
    assert(exists|i: nat| i < MAX_PHOTOS && !has_photo(photos, #[trigger] photo_name(i)));
    let i0 = choose|i: nat| i < MAX_PHOTOS && !has_photo(photos, #[trigger] photo_name(i));
    lemma_lowest_free_slot_exists(photos, i0);
}

/// Below a free slot there is a lowest free slot.
proof fn lemma_lowest_free_slot_exists(photos: Seq<String>, i: nat)
    requires
        i < MAX_PHOTOS,
        !has_photo(photos, photo_name(i)),
    ensures
        next_photo_slot(photos) < MAX_PHOTOS,
        !has_photo(photos, photo_name(next_photo_slot(photos))),
    decreases i,
{
    if forall|k: nat| k < i ==> has_photo(photos, #[trigger] photo_name(k)) {
        lemma_next_photo_slot_lowest(photos, i);
    } else {
        let k = choose|k: nat| k < i && !has_photo(photos, #[trigger] photo_name(k));
        lemma_lowest_free_slot_exists(photos, k);
    }
}

/// Room for one more photo: fewer than `MAX_PHOTOS` are listed.
pub fn check_photo_capacity(count: usize) -> (r: Result<(), ApiError>)
    ensures
        r is Ok <==> count < MAX_PHOTOS,
        r matches Err(e) ==> e.status == BAD_REQUEST && e.message@ == "max 6 photos"@,
{
    if count >= MAX_PHOTOS {
        Err(ApiError { status: BAD_REQUEST, message: String::from_str("max 6 photos") })
    } else {
        Ok(())
    }
}



/// The refusal of a photo upload, as its checks come in order: the profile
/// must exist (404), have room (400), receive a file (400) that is an
/// image (422), the models must be loaded (503) and a face found in the
/// photo (422). A caller that has not reached a later check yet passes it
/// as met.
pub open spec fn photo_refusal_of(
    profile_found: bool,
    photo_count: usize,
    uploaded: bool,
    image_valid: bool,
    models_loaded: bool,
    faces: usize,
) -> Option<(u16, Seq<char>)> {
    if !profile_found {
        Some((NOT_FOUND, "profile not found"@))
    } else if photo_count >= MAX_PHOTOS {
        Some((BAD_REQUEST, "max 6 photos"@))
    } else if !uploaded {
        Some((BAD_REQUEST, "no file uploaded"@))
    } else if !image_valid {
        Some((UNPROCESSABLE_ENTITY, "invalid image data"@))
    } else if !models_loaded {
        Some((SERVICE_UNAVAILABLE, "models not loaded (detector/swapper required)"@))
    } else if faces == 0 {
        Some((UNPROCESSABLE_ENTITY, "no face detected in photo"@))
    } else {
        None
    }
}

/// Why a photo upload is refused, if it is: the first check that fails.
pub fn photo_refusal(
    profile_found: bool,
    photo_count: usize,
    uploaded: bool,
    image_valid: bool,
    models_loaded: bool,
    faces: usize,
) -> (r: Option<ApiError>)
    ensures
        r is None <==> photo_refusal_of(profile_found, photo_count, uploaded, image_valid, models_loaded, faces) is None,
        r matches Some(e) ==> photo_refusal_of(profile_found, photo_count, uploaded, image_valid, models_loaded, faces)
            == Some((e.status, e.message@)),
{
    if !profile_found {
        Some(ApiError { status: NOT_FOUND, message: String::from_str("profile not found") })
    } else if let Err(e) = check_photo_capacity(photo_count) {
        Some(e)
    } else if !uploaded {
        Some(ApiError { status: BAD_REQUEST, message: String::from_str("no file uploaded") })
    } else if !image_valid {
        Some(ApiError { status: UNPROCESSABLE_ENTITY, message: String::from_str("invalid image data") })
    } else if !models_loaded {
        Some(
            ApiError {
                status: SERVICE_UNAVAILABLE,
                message: String::from_str("models not loaded (detector/swapper required)"),
            },
        )
    } else if faces == 0 {
        Some(ApiError { status: UNPROCESSABLE_ENTITY, message: String::from_str("no face detected in photo") })
    } else {
        None
    }
}

/// `photos` without the entries named `name`, in order.
pub open spec fn without_photo(photos: Seq<String>, name: Seq<char>) -> Seq<String>
    decreases photos.len(),
{
    if photos.len() == 0 {
        Seq::empty()
    } else {
        let rest = without_photo(photos.drop_last(), name);
        if photos.last()@ == name {
            rest
        } else {
            rest.push(photos.last())
        }
    }
}

/// The photos not named `name`.
pub open spec fn not_named(name: Seq<char>) -> spec_fn(String) -> bool {
    |p: String| p@ != name
}

/// The photos named `name`.
pub open spec fn named(name: Seq<char>) -> spec_fn(String) -> bool {
    |p: String| p@ == name
}

/// Deleting a name keeps every other listed photo, in order: the result is
/// the list filtered to the entries not so named; every such entry appears
/// in it, none named so does, and its length is the list's length less the
/// number of entries so named.
pub proof fn lemma_removal_keeps_others(photos: Seq<String>, name: Seq<char>)
    ensures
        without_photo(photos, name) == photos.filter(not_named(name)),
        without_photo(photos, name).len() + photos.filter(named(name)).len() == photos.len(),
        forall|i: int| 0 <= i < photos.len() && (#[trigger] photos[i])@ != name ==> without_photo(photos, name).contains(
            photos[i],
        ),
        forall|i: int| 0 <= i < without_photo(photos, name).len() ==> (#[trigger] without_photo(photos, name)[i])@ != name,
    decreases photos.len(),
{
    reveal(Seq::filter);
    let rest = without_photo(photos, name);
    if photos.len() > 0 {
        let init = photos.drop_last();
        let last = photos.last();
        lemma_removal_keeps_others(init, name);
        assert(not_named(name)(last) == (last@ != name));
        assert(named(name)(last) == (last@ == name));
        assert(photos.filter(not_named(name)) == (if not_named(name)(last) {
            init.filter(not_named(name)).push(last)
        } else {
            init.filter(not_named(name))
        }));
        assert(photos.filter(named(name)) == (if named(name)(last) {
            init.filter(named(name)).push(last)
        } else {
            init.filter(named(name))
        }));
    }
    assert(rest == photos.filter(not_named(name)));
    assert forall|i: int| 0 <= i < photos.len() && (#[trigger] photos[i])@ != name implies rest.contains(photos[i]) by {
        photos.lemma_filter_contains(not_named(name), i);
    }
    assert forall|i: int| 0 <= i < rest.len() implies (#[trigger] rest[i])@ != name by {
        photos.lemma_filter_pred(not_named(name), i);
    }
}

/// Remove photo slot `idx` from the list: refused with 404 when its file is
/// not listed.
pub fn remove_photo(photos: &Vec<String>, idx: usize) -> (r: Result<Vec<String>, ApiError>)
    ensures
        r is Ok <==> has_photo(photos@, photo_name(idx as nat)),
        r matches Ok(rest) ==> rest@ == without_photo(photos@, photo_name(idx as nat)),
        r matches Ok(rest) ==> rest@ == photos@.filter(not_named(photo_name(idx as nat))),
        r matches Err(e) ==> e.status == NOT_FOUND && e.message@ == photo_name(idx as nat) + " not found"@,
{
    let name = photo_file_name(idx);
    if !contains_photo(photos, &name) {
        let mut message = name;
        message.append(" not found");
        return Err(ApiError { status: NOT_FOUND, message });
    }
    let mut rest: Vec<String> = Vec::new();
    let mut j: usize = 0;
    while j < photos.len()
        invariant
            j <= photos@.len(),
            name@ == photo_name(idx as nat),
            rest@ == without_photo(photos@.take(j as int), name@),
        decreases photos@.len() - j,
    {
        assert(photos@.take(j as int + 1).drop_last() =~= photos@.take(j as int));
        if photos[j] != name {
            rest.push(photos[j].clone());
        }
        j = j + 1;
    }
    assert(photos@.take(photos@.len() as int) =~= photos@);
    proof {
        lemma_removal_keeps_others(photos@, name@);
    }
    Ok(rest)
}

/// A list with no entry named `name` is left as it is.
pub proof fn lemma_without_absent(photos: Seq<String>, name: Seq<char>)
    requires
        !has_photo(photos, name),
    ensures
        without_photo(photos, name) == photos,
    decreases photos.len(),
{
    if photos.len() > 0 {
        assert(!has_photo(photos.drop_last(), name)) by {
            if has_photo(photos.drop_last(), name) {
                let j = choose|j: int| 0 <= j < photos.drop_last().len() && (#[trigger] photos.drop_last()[j])@ == name;
                assert(photos[j] == photos.drop_last()[j]);
            }
        }
        lemma_without_absent(photos.drop_last(), name);
        assert(photos.last() == photos[photos.len() - 1]);
        assert(photos.drop_last().push(photos.last()) =~= photos);
    }
}

/// Adding a photo under a name the profile does not list yet and then
/// deleting that slot gives back the original list.
pub proof fn lemma_add_then_remove_photo(photos: Seq<String>, added: String, idx: nat)
    requires
        added@ == photo_name(idx),
        !has_photo(photos, photo_name(idx)),
    ensures
        has_photo(photos.push(added), photo_name(idx)),
        without_photo(photos.push(added), photo_name(idx)) == photos,
{
    let grown = photos.push(added);
    assert(grown[photos.len() as int] == added);
    assert(grown.drop_last() =~= photos);
    lemma_without_absent(photos, photo_name(idx));
}

/// `order` lists the indices of `created` newest first; profiles created in
/// the same second keep their listing order.
pub open spec fn is_newest_first(created: Seq<u64>, order: Seq<usize>) -> bool {
    &&& order.len() == created.len()
    &&& forall|i: int| 0 <= i < order.len() ==> #[trigger] order[i] < created.len()
    &&& forall|k: int| 0 <= k < created.len() ==> #[trigger] order.contains(k as usize)
    &&& forall|i: int, j: int| #![trigger order[i], order[j]] 0 <= i < j < order.len() ==> {
        &&& created[order[i] as int] >= created[order[j] as int]
        &&& created[order[i] as int] == created[order[j] as int] ==> order[i] < order[j]
    }
}

/// The listing order of profiles with the given creation times: newest
/// first, ties in their original order (a stable sort).
pub fn order_newest_first(created: &Vec<u64>) -> (order: Vec<usize>)
    ensures
        is_newest_first(created@, order@),
{
    let n = created.len();
    let mut order: Vec<usize> = Vec::new();
    let mut i: usize = 0;
    while i < n
        invariant
            n == created@.len(),
            i <= n,
            is_newest_first(created@.take(i as int), order@),
        decreases n - i,
    {
        let key = created[i];
        let mut pos: usize = 0;
        while pos < order.len() && created[order[pos]] >= key
            invariant
                n == created@.len(),
                i < n,
                key == created@[i as int],
                is_newest_first(created@.take(i as int), order@),
                pos <= order@.len(),
                forall|q: int| 0 <= q < pos ==> created@[#[trigger] order@[q] as int] >= key,
            decreases order@.len() - pos,
        {
            assert(order@[pos as int] < i);
            pos = pos + 1;
        }
        let ghost before = order@;
        let ghost prefix = created@.take(i as int);
        let ghost grown = created@.take(i as int + 1);
        proof {
            assert forall|q: int| pos <= q < before.len() implies created@[#[trigger] before[q] as int] < key by {
                if q > pos as int {
                    assert(prefix[before[pos as int] as int] >= prefix[before[q] as int]);
                }
            }
        }
        order.insert(pos, i);
        proof {
            let o = order@;
            assert(o =~= before.insert(pos as int, i));
            assert forall|q: int| 0 <= q < o.len() implies #[trigger] o[q] < grown.len() by {
                if q < pos {
                    assert(o[q] == before[q]);
                } else if q > pos {
                    assert(o[q] == before[q - 1]);
                }
            }
            assert forall|k: int| 0 <= k < grown.len() implies #[trigger] o.contains(k as usize) by {
                if k == i {
                    assert(o[pos as int] == i);
                } else {
                    assert(before.contains(k as usize));
                    let q = choose|q: int| 0 <= q < before.len() && before[q] == k as usize;
                    if q < pos {
                        assert(o[q] == before[q]);
                    } else {
                        assert(o[q + 1] == before[q]);
                    }
                }
            }
            assert forall|a: int, b: int| #![trigger o[a], o[b]] 0 <= a < b < o.len() implies {
                &&& grown[o[a] as int] >= grown[o[b] as int]
                &&& grown[o[a] as int] == grown[o[b] as int] ==> o[a] < o[b]
            } by {
                if b < pos {
                    assert(o[a] == before[a] && o[b] == before[b]);
                } else if b == pos {
                    assert(o[a] == before[a]);
                    assert(before[a] < i);
                } else if a < pos {
                    assert(o[a] == before[a] && o[b] == before[b - 1]);
                    if a + 1 < b {
                        assert(prefix[before[a] as int] >= prefix[before[b - 1] as int]);
                    }
                } else if a == pos {
                    assert(o[b] == before[b - 1]);
                    assert(created@[before[b - 1] as int] < key);
                } else {
                    assert(o[a] == before[a - 1] && o[b] == before[b - 1]);
                }
            }
            assert(is_newest_first(grown, o));
        }
        i = i + 1;
    }
    assert(created@.take(n as int) =~= created@);
    order
}

/// Profile `a` is listed before profile `b`: it is newer, or as new and
/// earlier in the original order.
pub open spec fn listed_before(created: Seq<u64>, a: usize, b: usize) -> bool {
    created[a as int] > created[b as int] || (created[a as int] == created[b as int] && a < b)
}

/// Every entry of `s` is listed before every later one.
pub open spec fn strictly_listed(created: Seq<u64>, s: Seq<usize>) -> bool {
    forall|i: int, j: int| #![trigger s[i], s[j]] 0 <= i < j < s.len() ==> listed_before(created, s[i], s[j])
}

/// Two sequences of the same length and the same entries, each strictly
/// ordered by `listed_before`, are equal.
proof fn lemma_strictly_listed_unique(created: Seq<u64>, s1: Seq<usize>, s2: Seq<usize>)
    requires
        s1.len() == s2.len(),
        strictly_listed(created, s1),
        strictly_listed(created, s2),
        forall|x: usize| s1.contains(x) <==> s2.contains(x),
    ensures
        s1 == s2,
    decreases s1.len(),
{
    if s1.len() == 0 {
        assert(s1 =~= s2);
    } else {
        let a = s1[0];
        let b = s2[0];
        assert(s1.contains(a));
        assert(s2.contains(b));
        let p = choose|p: int| 0 <= p < s2.len() && s2[p] == a;
        let q = choose|q: int| 0 <= q < s1.len() && s1[q] == b;
        if a != b {
            assert(p > 0 && q > 0);
            assert(listed_before(created, s2[0], s2[p]));
            assert(listed_before(created, s1[0], s1[q]));
        }
        let t1 = s1.drop_first();
        let t2 = s2.drop_first();
        assert forall|x: usize| t1.contains(x) implies t2.contains(x) by {
            let k = choose|k: int| 0 <= k < t1.len() && t1[k] == x;
            assert(listed_before(created, s1[0], s1[k + 1]));
            assert(s2.contains(x));
            let m = choose|m: int| 0 <= m < s2.len() && s2[m] == x;
            assert(m != 0);
            assert(t2[m - 1] == x);
        }
        assert forall|x: usize| t2.contains(x) implies t1.contains(x) by {
            let k = choose|k: int| 0 <= k < t2.len() && t2[k] == x;
            assert(listed_before(created, s2[0], s2[k + 1]));
            assert(s1.contains(x));
            let m = choose|m: int| 0 <= m < s1.len() && s1[m] == x;
            assert(m != 0);
            assert(t1[m - 1] == x);
        }
        assert forall|i: int, j: int| #![trigger t1[i], t1[j]] 0 <= i < j < t1.len() implies listed_before(
            created,
            t1[i],
            t1[j],
        ) by {
            assert(listed_before(created, s1[i + 1], s1[j + 1]));
        }
        assert forall|i: int, j: int| #![trigger t2[i], t2[j]] 0 <= i < j < t2.len() implies listed_before(
            created,
            t2[i],
            t2[j],
        ) by {
            assert(listed_before(created, s2[i + 1], s2[j + 1]));
        }
        lemma_strictly_listed_unique(created, t1, t2);
        assert(s1 =~= s2) by {
            assert forall|i: int| 0 <= i < s1.len() implies s1[i] == s2[i] by {
                if i > 0 {
                    assert(s1[i] == t1[i - 1]);
                    assert(s2[i] == t2[i - 1]);
                }
            }
        }
    }
}

/// The newest-first listing order is unique: two orders of the same
/// creation times that are both newest first with ties in original order
/// are the same order.
pub proof fn lemma_newest_first_unique(created: Seq<u64>, o1: Seq<usize>, o2: Seq<usize>)
    requires
        is_newest_first(created, o1),
        is_newest_first(created, o2),
    ensures
        o1 == o2,
{
    assert forall|i: int, j: int| #![trigger o1[i], o1[j]] 0 <= i < j < o1.len() implies listed_before(
        created,
        o1[i],
        o1[j],
    ) by {}
    assert forall|i: int, j: int| #![trigger o2[i], o2[j]] 0 <= i < j < o2.len() implies listed_before(
        created,
        o2[i],
        o2[j],
    ) by {}
    assert forall|x: usize| o1.contains(x) implies o2.contains(x) by {
        let k = choose|k: int| 0 <= k < o1.len() && o1[k] == x;
        assert(o1[k] < created.len());
        assert(o2.contains((x as int) as usize));
    }
    assert forall|x: usize| o2.contains(x) implies o1.contains(x) by {
        let k = choose|k: int| 0 <= k < o2.len() && o2[k] == x;
        assert(o2[k] < created.len());
        assert(o1.contains((x as int) as usize));
    }
    lemma_strictly_listed_unique(created, o1, o2);
}


/// A thumbnail for the listing: the base64 of the thumbnail file's bytes,
/// or the empty string when there is no readable thumbnail.
pub fn read_thumbnail_b64(thumbnail: Option<Vec<u8>>) -> (s: String)
    requires
        thumbnail matches Some(b) ==> 4 * ((b@.len() + 2) / 3) <= usize::MAX,
    ensures
        s@ == match thumbnail {
            Some(b) => base64_standard(b@),
            None => Seq::<char>::empty(),
        },
{
    match thumbnail {
        Some(bytes) => encode_base64(bytes.as_slice()),
        None => String::new(),
    }
}


/// The little-endian 32-bit word at word offset `i` of `bytes`.
pub open spec fn le_word(bytes: Seq<u8>, i: int) -> u32 {
    (bytes[4 * i] as int + 256 * bytes[4 * i + 1] as int + 65536 * bytes[4 * i + 2] as int + 16777216 * bytes[4
        * i + 3] as int) as u32
}

/// The words of a stored embedding (the bit patterns of its floats, stored
/// little-endian): present only when the file holds exactly
/// `EMBEDDING_DIM` words.
pub fn embedding_words(bytes: &Vec<u8>) -> (r: Option<Vec<u32>>)
    ensures
        r is Some <==> bytes@.len() == EMBEDDING_DIM * 4,
        r matches Some(words) ==> words@.len() == EMBEDDING_DIM && forall|i: int|
            0 <= i < EMBEDDING_DIM ==> #[trigger] words@[i] == le_word(bytes@, i),
{
    if bytes.len() != EMBEDDING_DIM * 4 {
        return None;
    }
    let mut words: Vec<u32> = Vec::new();
    let mut i: usize = 0;
    while i < EMBEDDING_DIM
        invariant
            bytes@.len() == EMBEDDING_DIM * 4,
            i <= EMBEDDING_DIM,
            words@.len() == i,
            forall|j: int| 0 <= j < i ==> #[trigger] words@[j] == le_word(bytes@, j),
        decreases EMBEDDING_DIM - i,
    {
        let w = bytes[4 * i] as u32 + 256 * (bytes[4 * i + 1] as u32) + 65536 * (bytes[4 * i + 2] as u32) + 16777216
            * (bytes[4 * i + 3] as u32);
        words.push(w);
        i = i + 1;
    }
    Some(words)
}

/// Byte `k` (0 = least significant) of a 32-bit word.
pub open spec fn word_byte(w: u32, k: int) -> u8 {
    if k == 0 {
        (w % 256) as u8
    } else if k == 1 {
        ((w / 256) % 256) as u8
    } else if k == 2 {
        ((w / 65536) % 256) as u8
    } else {
        (w / 16777216) as u8
    }
}

/// The bytes stored for an embedding: each word little-endian.
pub fn embedding_bytes(words: &Vec<u32>) -> (bytes: Vec<u8>)
    requires
        4 * words@.len() <= usize::MAX,
    ensures
        bytes@.len() == 4 * words@.len(),
        forall|i: int, k: int| 0 <= i < words@.len() && 0 <= k < 4 ==> bytes@[4 * i + k] == #[trigger] word_byte(words@[i], k),
{
    let mut bytes: Vec<u8> = Vec::new();
    let mut i: usize = 0;
    while i < words.len()
        invariant
            4 * words@.len() <= usize::MAX,
            i <= words@.len(),
            bytes@.len() == 4 * i,
            forall|j: int, k: int| 0 <= j < i && 0 <= k < 4 ==> bytes@[4 * j + k] == #[trigger] word_byte(words@[j], k),
        decreases words@.len() - i,
    {
        let w = words[i];
        bytes.push((w % 256) as u8);
        bytes.push(((w / 256) % 256) as u8);
        bytes.push(((w / 65536) % 256) as u8);
        bytes.push((w / 16777216) as u8);
        proof {
            assert forall|j: int, k: int| 0 <= j < i + 1 && 0 <= k < 4 implies bytes@[4 * j + k] == #[trigger] word_byte(words@[j], k) by {}
        }
        i = i + 1;
    }
    bytes
}

/// Reassembling the little-endian bytes of a word gives the word back.
pub proof fn lemma_word_bytes_roundtrip(w: u32)
    ensures
        word_byte(w, 0) as int + 256 * word_byte(w, 1) as int + 65536 * word_byte(w, 2) as int + 16777216
            * word_byte(w, 3) as int == w as int,
{
    assert(((w % 256) as u8) as int + 256 * (((w / 256) % 256) as u8) as int + 65536 * (((w / 65536) % 256) as u8) as int
        + 16777216 * ((w / 16777216) as u8) as int == w as int) by (bit_vector);
}

/// Storing an embedding of `EMBEDDING_DIM` words and reading the file back
/// gives the same words.
pub proof fn lemma_embedding_roundtrip(words: Seq<u32>, bytes: Seq<u8>)
    requires
        words.len() == EMBEDDING_DIM,
        bytes.len() == 4 * words.len(),
        forall|i: int, k: int| 0 <= i < words.len() && 0 <= k < 4 ==> bytes[4 * i + k] == #[trigger] word_byte(words[i], k),
    ensures
        forall|i: int| 0 <= i < EMBEDDING_DIM ==> le_word(bytes, i) == #[trigger] words[i],
{
    assert forall|i: int| 0 <= i < EMBEDDING_DIM implies le_word(bytes, i) == #[trigger] words[i] by {
        lemma_word_bytes_roundtrip(words[i]);
        assert(bytes[4 * i] == word_byte(words[i], 0));
        assert(bytes[4 * i + 1] == word_byte(words[i], 1));
        assert(bytes[4 * i + 2] == word_byte(words[i], 2));
        assert(bytes[4 * i + 3] == word_byte(words[i], 3));
    }
}

/// Distinct slots below ten have distinct file names.
pub proof fn lemma_photo_name_distinct(a: nat, b: nat)
    requires
        a < 10,
        b < 10,
        a != b,
    ensures
        photo_name(a) != photo_name(b),
{
    reveal_strlit("photo_");
    assert(photo_name(a)[6] == digit_char(a));
    assert(photo_name(b)[6] == digit_char(b));
}

/// Where the file of slot `k` is listed.
pub open spec fn slot_position(photos: Seq<String>, k: int) -> int {
    choose|j: int| 0 <= j < photos.len() && (#[trigger] photos[j])@ == photo_name(k as nat)
}

/// When the files of all `MAX_PHOTOS` slots are listed, at least
/// `MAX_PHOTOS` photos are listed.
pub proof fn lemma_all_slots_taken(photos: Seq<String>)
    requires
        forall|k: nat| k < MAX_PHOTOS ==> has_photo(photos, #[trigger] photo_name(k)),
    ensures
        photos.len() >= MAX_PHOTOS,
{
    let f = |k: int| slot_position(photos, k);
    let x = set_int_range(0, MAX_PHOTOS as int);
    lemma_int_range(0, MAX_PHOTOS as int);
    assert forall|k: int| x.contains(k) implies 0 <= #[trigger] f(k) < photos.len() && photos[f(k)]@ == photo_name(k as nat) by {
        assert(has_photo(photos, photo_name(k as nat)));
    }
    assert forall|k1: int, k2: int| x.contains(k1) && x.contains(k2) && #[trigger] f(k1) == #[trigger] f(k2) implies k1 == k2 by {
        if k1 != k2 {
            lemma_photo_name_distinct(k1 as nat, k2 as nat);
        }
    }
    let y = x.map(f);
    lemma_map_size(x, y, f);
    let range = set_int_range(0, photos.len() as int);
    lemma_int_range(0, photos.len() as int);
    assert(y.subset_of(range));
    lemma_len_subset(y, range);
}

} // verus!
