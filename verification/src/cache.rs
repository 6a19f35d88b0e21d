//! The sprite cache: names mapped to live animation cursors, backed by
//! the persistent store.
//!
//! `prepare` reads missing names through to the store and bakes what
//! decodes; names whose blob does not decode are simply left out, so
//! callers fall back to the placeholder sprite.  `clear` evicts every
//! name not in the keep list.  The cache never holds more than one
//! cursor per name.

use vstd::prelude::*;
use crate::codec::{decode_resource, spec_decode_resource};
use crate::directory::{lemma_name_set_extend, name_set, Directory};
use crate::image::{qoi_ok, qoi_valid};
use crate::sprite::{bake, BakedResource};
use crate::store::PersistentStore;

verus! {

/// A cursor freshly baked at `now` from the given stored bytes.
pub open spec fn spec_fresh_bake(b: BakedResource, bytes: Seq<u8>, now: u64) -> bool {
    match spec_decode_resource(bytes) {
        Some((frames, t)) => {
            &&& b.frames.deep_view() == frames
            &&& b.cursor == 0
            &&& b.last_iteration == now
            &&& b.frame_time == t as u64
        },
        None => false,
    }
}

/// What warming a cache does: existing entries stay untouched; a new
/// entry appears exactly for each kept name whose stored blob decodes,
/// freshly baked at `now`; nothing else appears.
pub open spec fn spec_prepared(
    pre: Map<Seq<char>, BakedResource>,
    post: Map<Seq<char>, BakedResource>,
    keep: Set<Seq<char>>,
    store: Map<Seq<char>, Vec<u8>>,
    now: u64,
) -> bool {
    &&& forall|k: Seq<char>|
        #[trigger] pre.contains_key(k) ==> post.contains_key(k) && post[k] == pre[k]
    &&& forall|k: Seq<char>|
        #[trigger] post.contains_key(k) ==> pre.contains_key(k) || (keep.contains(k)
            && store.contains_key(k) && spec_fresh_bake(post[k], store[k]@, now))
    &&& forall|k: Seq<char>|
        keep.contains(k) && store.contains_key(k) && spec_decode_resource(
            #[trigger] store[k]@,
        ) is Some ==> post.contains_key(k)
}

/// The sprite cache.
pub struct SpriteRegister {
    sprites: Directory<BakedResource>,
}

impl SpriteRegister {
    /// The resident cursors, by sprite name.
    pub closed spec fn cache(&self) -> Map<Seq<char>, BakedResource> {
        self.sprites@
    }

    pub open spec fn wf(&self) -> bool {
        &&& self.spec_directory_wf()
        &&& forall|k: Seq<char>|
            #[trigger] self.cache().contains_key(k) ==> self.cache()[k].wf()
    }

    pub closed spec fn spec_directory_wf(&self) -> bool {
        self.sprites.wf()
    }

    /// An empty cache.
    pub fn new() -> (c: Self)
        ensures
            c.wf(),
            c.cache() == Map::<Seq<char>, BakedResource>::empty(),
    {
        SpriteRegister { sprites: Directory::new() }
    }

    /// Evicts every cached name not in the keep list.
    pub fn clear(&mut self, keep: &Vec<String>)
        requires
            old(self).wf(),
        ensures
            final(self).wf(),
            final(self).cache() == old(self).cache().restrict(name_set(keep@)),
    {
        self.sprites.retain_names(keep);
        proof {
            assert forall|k: Seq<char>| #[trigger] self.cache().contains_key(k) implies self.cache()[k].wf() by {
                assert(old(self).cache().contains_key(k));
                assert(self.cache()[k] == old(self).cache()[k]);
            }
        }
    }

    /// Warms the cache for the given names: each name not already
    /// resident is read from the store and baked if its blob decodes;
    /// names absent from the store or undecodable are left out.
    pub fn prepare(&mut self, keys: &Vec<String>, store: &PersistentStore, now: u64)
        requires
            old(self).wf(),
            store.wf(),
        ensures
            final(self).wf(),
            spec_prepared(
                old(self).cache(),
                final(self).cache(),
                name_set(keys@),
                store.contents(),
                now,
            ),
    {
        let n = keys.len();
        let mut i: usize = 0;
        proof {
            assert(keys@.subrange(0, 0) =~= Seq::<String>::empty());
        }
        while i < n
            invariant
                n == keys@.len(),
                i <= n,
                store.wf(),
                old(self).wf(),
                self.spec_directory_wf(),
                forall|k: Seq<char>|
                    #[trigger] self.cache().contains_key(k) ==> self.cache()[k].wf(),
                forall|k: Seq<char>|
                    #[trigger] old(self).cache().contains_key(k) ==> self.cache().contains_key(k)
                        && self.cache()[k] == old(self).cache()[k],
                forall|k: Seq<char>|
                    #[trigger] self.cache().contains_key(k) ==> old(self).cache().contains_key(k)
                        || (name_set(keys@.subrange(0, i as int)).contains(k)
                        && store.contents().contains_key(k) && spec_fresh_bake(
                        self.cache()[k],
                        store.contents()[k]@,
                        now,
                    )),
                forall|k: Seq<char>|
                    name_set(keys@.subrange(0, i as int)).contains(k)
                        && store.contents().contains_key(k) && spec_decode_resource(
                        #[trigger] store.contents()[k]@,
                    ) is Some ==> self.cache().contains_key(k),
            decreases n - i,
        {
            let key = &keys[i];
            proof {
                lemma_name_set_extend(keys@, i as int);
            }
            let ghost pre = self.cache();
            if !self.sprites.contains(key) {
                match store.lookup(key) {
                    Some(bytes) => {
                        match decode_resource(bytes) {
                            Some(res) => {
                                let baked = bake(res, now);
                                proof {
                                    assert(spec_fresh_bake(baked, store.contents()[key@]@, now));
                                }
                                self.sprites.insert(key.clone(), baked);
                            },
                            None => {},
                        }
                    },
                    None => {},
                }
            }
            proof {
                assert forall|k: Seq<char>| #[trigger] self.cache().contains_key(k) implies self.cache()[k].wf() by {
                    if !pre.contains_key(k) {
                        assert(k == key@);
                    }
                }
                assert forall|k: Seq<char>| #[trigger] self.cache().contains_key(k) implies (
                    old(self).cache().contains_key(k) || (name_set(keys@.subrange(0, i + 1)).contains(k)
                        && store.contents().contains_key(k)
                        && spec_fresh_bake(self.cache()[k], store.contents()[k]@, now))) by {
                    if pre.contains_key(k) {
                        if !old(self).cache().contains_key(k) {
                            assert(name_set(keys@.subrange(0, i as int)).contains(k));
                            assert(name_set(keys@.subrange(0, i + 1)).contains(k));
                            assert(self.cache()[k] == pre[k]);
                        }
                    } else {
                        assert(k == key@);
                        assert(keys@.subrange(0, i + 1)[i as int]@ == k);
                        assert(name_set(keys@.subrange(0, i + 1)).contains(k));
                    }
                }
                assert forall|k: Seq<char>| (name_set(keys@.subrange(0, i + 1)).contains(k)
                    && store.contents().contains_key(k)
                    && spec_decode_resource(#[trigger] store.contents()[k]@) is Some) implies self.cache().contains_key(
                    k,
                ) by {
                    if !name_set(keys@.subrange(0, i as int)).contains(k) && !pre.contains_key(k) {
                        assert(k == key@);
                    }
                }
            }
            i = i + 1;
        }
        proof {
            assert(keys@.subrange(0, n as int) =~= keys@);
        }
    }

    /// Returns the current frame for a resident name, advancing its
    /// cursor if the deadline has passed; nothing for a non-resident
    /// name, an empty resource, or a frame the image codec rejects.
    pub fn get_sprite(&mut self, name: &String, now: u64) -> (r: Option<Vec<u8>>)
        requires
            old(self).wf(),
        ensures
            final(self).wf(),
            !old(self).cache().contains_key(name@) ==> r is None && final(self).cache() == old(
                self,
            ).cache(),
            old(self).cache().contains_key(name@) ==> {
                let stepped = old(self).cache()[name@].spec_step(now);
                &&& final(self).cache() == old(self).cache().insert(name@, stepped)
                &&& (match r {
                    Some(f) => stepped.frames@.len() > 0 && f@ == stepped.spec_frame() && qoi_ok(
                        f@,
                    ),
                    None => stepped.frames@.len() == 0 || !qoi_ok(stepped.spec_frame()),
                })
            },
    {
        match self.sprites.take(name) {
            Some(mut b) => {
                proof {
                    assert(old(self).cache().contains_key(name@));
                    assert(b.wf());
                }
                let img = b.get_image(now);
                self.sprites.insert(name.clone(), b);
                proof {
                    assert(self.cache() =~= old(self).cache().insert(
                        name@,
                        old(self).cache()[name@].spec_step(now),
                    ));
                    assert forall|k: Seq<char>| #[trigger] self.cache().contains_key(k) implies self.cache()[k].wf() by {
                        if k != name@ {
                            assert(old(self).cache().contains_key(k));
                        }
                    }
                }
                match img {
                    Ok(f) => {
                        if qoi_valid(&f) {
                            Some(f)
                        } else {
                            None
                        }
                    },
                    Err(_) => None,
                }
            },
            None => {
                proof {
                    assert(self.cache() == old(self).cache());
                    assert forall|k: Seq<char>| #[trigger] self.cache().contains_key(k) implies self.cache()[k].wf() by {
                        assert(old(self).cache().contains_key(k));
                    }
                }
                None
            },
        }
    }

    /// True iff some resident sprite's next-advance deadline has passed.
    pub fn needs_redraw(&self, now: u64) -> (r: bool)
        requires
            self.wf(),
        ensures
            r == exists|k: Seq<char>|
                #[trigger] self.cache().contains_key(k) && self.cache()[k].spec_due(now),
    {
        let n = self.sprites.num_entries();
        let mut i: usize = 0;
        while i < n
            invariant
                n == self.sprites.kv().len(),
                i <= n,
                self.wf(),
                forall|j: int| 0 <= j < i ==> !(#[trigger] self.sprites.kv()[j]).1.spec_due(now),
            decreases n - i,
        {
            let e = self.sprites.entry_at(i);
            if e.1.needs_update(now) {
                proof {
                    self.sprites.lemma_kv_index(i as int);
                    assert(self.cache().contains_key(self.sprites.kv()[i as int].0@));
                    assert(self.cache()[self.sprites.kv()[i as int].0@].spec_due(now));
                }
                return true;
            }
            i = i + 1;
        }
        proof {
            assert forall|k: Seq<char>|
                #[trigger] self.cache().contains_key(k) implies !self.cache()[k].spec_due(now) by {
                self.sprites.lemma_kv_contains(k);
                let j = choose|j: int|
                    0 <= j < self.sprites.kv().len() && (#[trigger] self.sprites.kv()[j]).0@ == k;
                self.sprites.lemma_kv_index(j);
            }
        }
        false
    }
}

/// Clearing with an empty keep list empties the cache: afterwards no name
/// is resident, so every lookup yields nothing.
pub proof fn lemma_clear_all_empties(cache: Map<Seq<char>, BakedResource>)
    ensures
        cache.restrict(name_set(Seq::<String>::empty())) == Map::<
            Seq<char>,
            BakedResource,
        >::empty(),
        forall|name: Seq<char>|
            !cache.restrict(name_set(Seq::<String>::empty())).contains_key(name),
{
    assert(cache.restrict(name_set(Seq::<String>::empty())) =~= Map::<
        Seq<char>,
        BakedResource,
    >::empty());
}

} // verus!
