//! Isolated repository provisioner.
//!
//! A disposable repository is populated with exactly one commit's file
//! tree by copying only the objects reachable from that tree into a fresh
//! content-addressed store, never by a full clone. Every copied object is
//! re-hashed and the hash must reproduce the object's identifier — an
//! integrity assertion, not a cache check; any mismatch aborts the copy
//! and reports the offending identifier. Checking the tree out then
//! materializes exactly the files of that one commit. The surrounding
//! process walks the source repository's tree (pre-order) and reads the
//! raw objects; everything decided about them happens here.

use vstd::prelude::*;

verus! {

/// The kind of a stored object, as the repository's object model has it.
#[derive(Clone, Copy, Debug, PartialEq, Eq, Structural)]
pub enum ObjectKind {
    Blob,
    Tree,
    Commit,
    Tag,
}

/// A numeric stand-in for the object kind, so the hash below is a
/// function of plain values.
pub open spec fn kind_code(k: ObjectKind) -> u8 {
    match k {
        ObjectKind::Blob => 1u8,
        ObjectKind::Tree => 2u8,
        ObjectKind::Commit => 3u8,
        ObjectKind::Tag => 4u8,
    }
}

/// The content hash the repository's object store is addressed by: a
/// function of an object's kind and raw bytes alone.
pub uninterp spec fn git_object_hash(kind: u8, data: Seq<u8>) -> Seq<u8>;

/// Relies on `git2::Oid::hash_object`: it hashes the given bytes as an
/// object of the given kind (SHA-1, twenty bytes), touching no repository,
/// so the result depends on the kind and the bytes alone.
#[verifier::external_body]
fn hash_object(kind: ObjectKind, data: &Vec<u8>) -> (r: Option<Vec<u8>>)
    ensures
        r matches Some(h) ==> h@ == git_object_hash(kind_code(kind), data@) && h@.len() == 20,
{
    let k = match kind {
        ObjectKind::Blob => git2::ObjectType::Blob,
        ObjectKind::Tree => git2::ObjectType::Tree,
        ObjectKind::Commit => git2::ObjectType::Commit,
        ObjectKind::Tag => git2::ObjectType::Tag,
    };
    match git2::Oid::hash_object(k, data) {
        Ok(oid) => Some(oid.as_bytes().to_vec()),
        Err(_) => None,
    }
}

/// One raw object read from the source repository: its identifier, its
/// kind, and its bytes.
pub struct ObjectRecord {
    /// The object's content-addressed identifier.
    pub id: Vec<u8>,
    /// The object's kind.
    pub kind: ObjectKind,
    /// The object's raw bytes.
    pub data: Vec<u8>,
}

/// Why a copy was aborted, with the offending object's identifier.
#[derive(Debug)]
pub enum CopyError {
    /// The hash of the copied bytes could not be computed.
    HashUnavailable { id: Vec<u8> },
    /// Re-hashing the copied bytes did not reproduce the identifier.
    HashMismatch { expected: Vec<u8>, actual: Vec<u8> },
    /// A tree entry's object is not in the store.
    MissingObject { id: Vec<u8> },
}


/// Decide one copy from the re-hash result, exactly by case: no hash (the
/// outside hasher refused the bytes) reports unavailability under the
/// expected identifier; a hash equal to the expected identifier accepts
/// the copy; any other hash is an integrity violation, reported with both
/// identifiers.
pub fn classify_rehash(rehash: Option<Vec<u8>>, expected_id: &Vec<u8>) -> (r: Result<
    (),
    CopyError,
>)
    ensures
        rehash is None ==> (r matches Err(CopyError::HashUnavailable { id }) && id@
            == expected_id@),
        (rehash is Some && rehash.unwrap()@ == expected_id@) ==> r is Ok,
        (rehash is Some && rehash.unwrap()@ != expected_id@) ==> (r matches Err(
            CopyError::HashMismatch { expected, actual },
        ) && expected@ == expected_id@ && actual@ == rehash.unwrap()@),
        r is Ok ==> (rehash is Some && rehash.unwrap()@ == expected_id@),
{
    match rehash {
        None => Err(CopyError::HashUnavailable { id: clone_bytes(expected_id) }),
        Some(actual) => {
            if bytes_eq(&actual, expected_id) {
                Ok(())
            } else {
                Err(CopyError::HashMismatch { expected: clone_bytes(expected_id), actual })
            }
        },
    }
}

/// The first record in `recs` before position `end` whose identifier is
/// `id`, if any: its data.
pub open spec fn recs_lookup_upto(recs: Seq<ObjectRecord>, end: int, id: Seq<u8>) -> Option<
    Seq<u8>,
>
    decreases end,
{
    if end <= 0 || end > recs.len() {
        None
    } else if recs_lookup_upto(recs, end - 1, id) is Some {
        recs_lookup_upto(recs, end - 1, id)
    } else if recs[end - 1].id@ == id {
        Some(recs[end - 1].data@)
    } else {
        None
    }
}

/// The data of the first record with the given identifier, if any.
pub open spec fn recs_lookup(recs: Seq<ObjectRecord>, id: Seq<u8>) -> Option<Seq<u8>> {
    recs_lookup_upto(recs, recs.len() as int, id)
}

/// Compare two byte strings.
pub fn bytes_eq(a: &Vec<u8>, b: &Vec<u8>) -> (r: bool)
    ensures
        r == (a@ == b@),
{
    if a.len() != b.len() {
        proof {
            assert(a@.len() != b@.len());
        }
        return false;
    }
    let mut i: usize = 0;
    while i < a.len()
        invariant
            0 <= i <= a@.len() == b@.len(),
            forall|k: int| 0 <= k < i ==> a@[k] == b@[k],
        decreases a@.len() - i,
    {
        if a[i] != b[i] {
            return false;
        }
        i = i + 1;
    }
    proof {
        assert(a@ =~= b@);
    }
    true
}

/// A content-addressed object store being filled for one isolated
/// repository. Every object it holds has been re-hashed on the way in:
/// its identifier is the hash of its kind and bytes. Identifiers are
/// unique in the store.
pub struct ObjectStore {
    entries: Vec<ObjectRecord>,
}

impl ObjectStore {
    /// The stored objects, in insertion order.
    pub closed spec fn entries_seq(self) -> Seq<ObjectRecord> {
        self.entries@
    }

    /// Every stored object's identifier is the hash of its kind and
    /// bytes, and no identifier is stored twice.
    pub open spec fn wf(self) -> bool {
        &&& forall|i: int|
            0 <= i < self.entries_seq().len() ==> (#[trigger] self.entries_seq()[i]).id@
                == git_object_hash(
                kind_code(self.entries_seq()[i].kind),
                self.entries_seq()[i].data@,
            )
        &&& forall|i: int, j: int|
            0 <= i < j < self.entries_seq().len() ==> self.entries_seq()[i].id@
                != self.entries_seq()[j].id@
    }

    /// An empty store.
    pub fn new() -> (s: Self)
        ensures
            s.wf(),
            s.entries_seq().len() == 0,
    {
        ObjectStore { entries: Vec::new() }
    }

    /// The data of the stored object with the given identifier, if any.
    pub fn get(&self, id: &Vec<u8>) -> (r: Option<&Vec<u8>>)
        ensures
            r matches Some(d) ==> recs_lookup(self.entries_seq(), id@) == Some(d@),
            r is None ==> recs_lookup(self.entries_seq(), id@) is None,
    {
        let ghost es = self.entries_seq();
        let mut i: usize = 0;
        while i < self.entries.len()
            invariant
                0 <= i <= es.len(),
                es == self.entries_seq(),
                recs_lookup_upto(es, i as int, id@) is None,
            decreases es.len() - i,
        {
            if bytes_eq(&self.entries[i].id, id) {
                proof {
                    assert(recs_lookup_upto(es, i as int + 1, id@) == Some(es[i as int].data@));
                    lemma_recs_lookup_extend(es, i as int + 1, es.len() as int, id@);
                }
                return Some(&self.entries[i].data);
            }
            proof {
                assert(recs_lookup_upto(es, i as int + 1, id@) is None);
            }
            i = i + 1;
        }
        None
    }

    /// Copy one object into the store: re-hash the bytes, require the
    /// hash to reproduce the expected identifier, and store the object
    /// under it (an object already present is left as it is — the store
    /// is content-addressed). On failure the store is untouched and the
    /// offending identifier is reported. The per-case verdict on the
    /// re-hash is `classify_rehash`; whether a hash comes back at all is
    /// the outside hasher's to decide, so on a well-hashed input this
    /// function owes either acceptance or an unavailability report —
    /// never a mismatch.
    pub fn put_verified(&mut self, kind: ObjectKind, data: Vec<u8>, expected_id: &Vec<u8>) -> (r:
        Result<(), CopyError>)
        requires
            old(self).wf(),
        ensures
            final(self).wf(),
            r is Ok ==> expected_id@ == git_object_hash(kind_code(kind), data@),
            r is Ok ==> recs_lookup(final(self).entries_seq(), expected_id@) is Some,
            r is Ok && recs_lookup(old(self).entries_seq(), expected_id@) is None
                ==> recs_lookup(final(self).entries_seq(), expected_id@) == Some(data@),
            r is Ok && recs_lookup(old(self).entries_seq(), expected_id@) is Some
                ==> final(self).entries_seq() == old(self).entries_seq(),
            forall|id2: Seq<u8>|
                id2 != expected_id@ ==> recs_lookup(final(self).entries_seq(), id2)
                    == recs_lookup(old(self).entries_seq(), id2),
            r is Err ==> final(self).entries_seq() == old(self).entries_seq(),
            r matches Err(CopyError::HashMismatch { expected, actual }) ==> expected@
                == expected_id@ && expected_id@ != git_object_hash(kind_code(kind), data@),
            r matches Err(CopyError::HashUnavailable { id }) ==> id@ == expected_id@,
            expected_id@ == git_object_hash(kind_code(kind), data@) ==> !(r matches Err(
                CopyError::HashMismatch { .. },
            )),
            r is Err ==> !(r matches Err(CopyError::MissingObject { .. })),
    {
        let rehash = hash_object(kind, &data);
        match classify_rehash(rehash, expected_id) {
            Ok(()) => {},
            Err(e) => {
                return Err(e);
            },
        }
        if self.contains_id(expected_id) {
            return Ok(());
        }
        let id = clone_bytes(expected_id);
        let ghost es_old = self.entries_seq();
        let ghost rec_data = data@;
        self.entries.push(ObjectRecord { id, kind, data });
        proof {
            let es = self.entries_seq();
            assert(es[es.len() - 1].id@ == expected_id@);
            assert(es[es.len() - 1].data@ == rec_data);
            assert forall|i: int, j: int|
                0 <= i < j < es.len() implies es[i].id@ != es[j].id@ by {
                if j == es.len() - 1 {
                    assert(es[i] == es_old[i]);
                    if es[i].id@ == expected_id@ {
                        lemma_recs_lookup_some_of_match(es_old, i, expected_id@);
                        assert(false);
                    }
                }
            }
            lemma_recs_lookup_push(es_old, es, expected_id@);
            assert forall|id2: Seq<u8>| id2 != expected_id@ implies recs_lookup(es, id2)
                == recs_lookup(es_old, id2) by {
                lemma_recs_lookup_push(es_old, es, id2);
            }
        }
        Ok(())
    }

    /// Whether the store holds an object with the given identifier.
    pub fn contains_id(&self, id: &Vec<u8>) -> (r: bool)
        ensures
            r == (recs_lookup(self.entries_seq(), id@) is Some),
    {
        match self.get(id) {
            Some(_) => true,
            None => false,
        }
    }
}

/// How a lookup changes when one record is appended: a different
/// identifier sees no change; the appended identifier is found, with the
/// earlier answer winning if there was one.
proof fn lemma_recs_lookup_push(es_old: Seq<ObjectRecord>, es: Seq<ObjectRecord>, id: Seq<u8>)
    requires
        es.len() == es_old.len() + 1,
        forall|i: int| 0 <= i < es_old.len() ==> es[i] == es_old[i],
    ensures
        id != es[es.len() - 1].id@ ==> recs_lookup(es, id) == recs_lookup(es_old, id),
        id == es[es.len() - 1].id@ && recs_lookup(es_old, id) is None ==> recs_lookup(es, id)
            == Some(es[es.len() - 1].data@),
        id == es[es.len() - 1].id@ && recs_lookup(es_old, id) is Some ==> recs_lookup(es, id)
            == recs_lookup(es_old, id),
{
    lemma_recs_lookup_prefix(es_old, es, es_old.len() as int, id);
}

/// Lookups below a shared prefix agree.
proof fn lemma_recs_lookup_prefix(
    es_old: Seq<ObjectRecord>,
    es: Seq<ObjectRecord>,
    end: int,
    id: Seq<u8>,
)
    requires
        0 <= end <= es_old.len(),
        end <= es.len(),
        forall|i: int| 0 <= i < end ==> es[i] == es_old[i],
    ensures
        recs_lookup_upto(es, end, id) == recs_lookup_upto(es_old, end, id),
    decreases end,
{
    if end > 0 {
        lemma_recs_lookup_prefix(es_old, es, end - 1, id);
    }
}

/// A lookup that found nothing up to `end` keeps finding nothing as the
/// bound grows only over non-matching records; one that found something
/// keeps its answer.
proof fn lemma_recs_lookup_extend(recs: Seq<ObjectRecord>, from: int, to: int, id: Seq<u8>)
    requires
        0 <= from <= to <= recs.len(),
        recs_lookup_upto(recs, from, id) is Some,
    ensures
        recs_lookup_upto(recs, to, id) == recs_lookup_upto(recs, from, id),
    decreases to - from,
{
    if from < to {
        lemma_recs_lookup_extend(recs, from, to - 1, id);
    }
}

/// If any record before `end` matches `id`, the lookup up to `end` finds
/// something.
proof fn lemma_recs_lookup_some_of_match(recs: Seq<ObjectRecord>, i: int, id: Seq<u8>)
    requires
        0 <= i < recs.len(),
        recs[i].id@ == id,
    ensures
        recs_lookup(recs, id) is Some,
    decreases recs.len() - i,
{
    assert(recs_lookup_upto(recs, i + 1, id) is Some);
    lemma_recs_lookup_extend(recs, i + 1, recs.len() as int, id);
}

fn clone_bytes(v: &Vec<u8>) -> (r: Vec<u8>)
    ensures
        r@ == v@,
{
    let mut r: Vec<u8> = Vec::new();
    let mut i: usize = 0;
    while i < v.len()
        invariant
            0 <= i <= v@.len(),
            r@ == v@.subrange(0, i as int),
        decreases v@.len() - i,
    {
        r.push(v[i]);
        proof {
            assert(r@ =~= v@.subrange(0, i as int + 1));
        }
        i = i + 1;
    }
    proof {
        assert(v@.subrange(0, v@.len() as int) =~= v@);
    }
    r
}

/// One file of a commit's tree: its path and the identifier of the blob
/// holding its contents.
pub struct TreeEntry {
    /// Path of the file below the repository root.
    pub path: String,
    /// Identifier of the blob with the file's contents.
    pub id: Vec<u8>,
}

/// An ephemeral, disk-backed repository model holding exactly one
/// checked-out tree: the verified objects copied for it, and the files of
/// the working directory in tree order. The real directory is created and
/// removed by the surrounding process, which owns it exclusively for one
/// task's lifetime.
pub struct IsolatedRepository {
    /// The copied, integrity-checked objects.
    pub store: ObjectStore,
    /// The checked-out files: path and contents, one per tree entry.
    pub files: Vec<(String, Vec<u8>)>,
}

/// Copy every given object into a fresh store, re-hashing each one. The
/// first failure aborts the whole copy and reports the offending
/// identifier; on success the store holds exactly the given objects (the
/// first record winning for a repeated identifier), each verified. When
/// every given object's identifier is the hash of its kind and bytes, the
/// copy owes success, short of the outside hasher refusing some bytes.
pub fn copy_objects(store: &mut ObjectStore, objects: &Vec<ObjectRecord>) -> (r: Result<
    (),
    CopyError,
>)
    requires
        old(store).wf(),
        old(store).entries_seq().len() == 0,
    ensures
        final(store).wf(),
        r is Ok ==> forall|j: int|
            0 <= j < objects@.len() ==> (#[trigger] objects@[j]).id@ == git_object_hash(
                kind_code(objects@[j].kind),
                objects@[j].data@,
            ),
        r is Ok ==> forall|id: Seq<u8>|
            recs_lookup(final(store).entries_seq(), id) == recs_lookup(objects@, id),
        r matches Err(CopyError::HashMismatch { expected, actual }) ==> exists|j: int|
            0 <= j < objects@.len() && (#[trigger] objects@[j]).id@ == expected@ && expected@
                != git_object_hash(kind_code(objects@[j].kind), objects@[j].data@),
        r matches Err(CopyError::HashUnavailable { id }) ==> exists|j: int|
            0 <= j < objects@.len() && (#[trigger] objects@[j]).id@ == id@,
        (forall|j: int|
            0 <= j < objects@.len() ==> (#[trigger] objects@[j]).id@ == git_object_hash(
                kind_code(objects@[j].kind),
                objects@[j].data@,
            )) ==> (r is Ok || r matches Err(CopyError::HashUnavailable { .. })),
        r is Err ==> !(r matches Err(CopyError::MissingObject { .. })),
{
    let ghost obs = objects@;
    let mut j: usize = 0;
    while j < objects.len()
        invariant
            obs == objects@,
            store.wf(),
            0 <= j <= obs.len(),
            forall|k: int|
                0 <= k < j ==> (#[trigger] obs[k]).id@ == git_object_hash(
                    kind_code(obs[k].kind),
                    obs[k].data@,
                ),
            forall|id: Seq<u8>|
                recs_lookup(store.entries_seq(), id) == recs_lookup_upto(obs, j as int, id),
        decreases obs.len() - j,
    {
        let data = clone_bytes(&objects[j].data);
        let kind = objects[j].kind;
        let ghost store_before = store.entries_seq();
        let r = store.put_verified(kind, data, &objects[j].id);
        match r {
            Ok(()) => {
                proof {
                    assert forall|id: Seq<u8>|
                        recs_lookup(store.entries_seq(), id) == recs_lookup_upto(
                            obs,
                            j as int + 1,
                            id,
                        ) by {
                        if id == obs[j as int].id@ {
                            if recs_lookup_upto(obs, j as int, id) is Some {
                                assert(recs_lookup(store_before, id) is Some);
                            } else {
                                assert(recs_lookup(store_before, id) is None);
                            }
                        } else {
                            assert(recs_lookup(store.entries_seq(), id) == recs_lookup(
                                store_before,
                                id,
                            ));
                        }
                    }
                }
            },
            Err(e) => {
                proof {
                    assert(e matches CopyError::HashMismatch { expected, actual }
                        ==> obs[j as int].id@ == expected@ && expected@ != git_object_hash(
                        kind_code(obs[j as int].kind),
                        obs[j as int].data@,
                    ));
                    assert(e matches CopyError::HashUnavailable { id } ==> obs[j as int].id@
                        == id@);
                }
                return Err(e);
            },
        }
        j = j + 1;
    }
    Ok(())
}

/// Materialize the files of a tree from the store: one file per entry, in
/// order, with the contents of the entry's blob. A missing object aborts
/// the checkout and is reported.
pub fn checkout(store: &ObjectStore, tree: &Vec<TreeEntry>) -> (r: Result<
    Vec<(String, Vec<u8>)>,
    CopyError,
>)
    ensures
        r matches Ok(files) ==> {
            &&& files@.len() == tree@.len()
            &&& forall|i: int|
                0 <= i < tree@.len() ==> (#[trigger] files@[i]).0@ == tree@[i].path@ && Some(
                    files@[i].1@,
                ) == recs_lookup(store.entries_seq(), tree@[i].id@)
        },
        r matches Err(CopyError::MissingObject { id }) ==> exists|i: int|
            0 <= i < tree@.len() && (#[trigger] tree@[i].id@) == id@ && recs_lookup(
                store.entries_seq(),
                id@,
            ) is None,
        r is Err ==> r matches Err(CopyError::MissingObject { .. }),
{
    let mut files: Vec<(String, Vec<u8>)> = Vec::new();
    let mut i: usize = 0;
    while i < tree.len()
        invariant
            0 <= i <= tree@.len(),
            files@.len() == i,
            forall|k: int|
                0 <= k < i ==> (#[trigger] files@[k]).0@ == tree@[k].path@ && Some(files@[k].1@)
                    == recs_lookup(store.entries_seq(), tree@[k].id@),
        decreases tree@.len() - i,
    {
        match store.get(&tree[i].id) {
            Some(data) => {
                let contents = clone_bytes(data);
                files.push((tree[i].path.clone(), contents));
            },
            None => {
                return Err(CopyError::MissingObject { id: clone_bytes(&tree[i].id) });
            },
        }
        i = i + 1;
    }
    Ok(files)
}

/// Provision an isolated repository for one commit: copy every object
/// reachable from its tree (as the surrounding process walked and read
/// them, the tree object included) into a fresh content-addressed store,
/// verifying each object's hash, then check the tree out. On success the
/// working directory holds exactly the files of that one commit,
/// byte-for-byte the contents the source held for each tree entry, and
/// nothing else; no object outside the given set was copied. On a
/// well-formed read — every object's identifier the hash of its kind and
/// bytes, every tree entry resolvable among the objects — provisioning
/// owes success, short of the outside hasher refusing some bytes.
pub fn provision(objects: &Vec<ObjectRecord>, tree: &Vec<TreeEntry>) -> (r: Result<
    IsolatedRepository,
    CopyError,
>)
    ensures
        r matches Ok(repo) ==> {
            &&& repo.store.wf()
            &&& forall|j: int|
                0 <= j < objects@.len() ==> (#[trigger] objects@[j]).id@ == git_object_hash(
                    kind_code(objects@[j].kind),
                    objects@[j].data@,
                )
            &&& forall|id: Seq<u8>|
                recs_lookup(repo.store.entries_seq(), id) == recs_lookup(objects@, id)
            &&& repo.files@.len() == tree@.len()
            &&& forall|i: int|
                0 <= i < tree@.len() ==> (#[trigger] repo.files@[i]).0@ == tree@[i].path@ && Some(
                    repo.files@[i].1@,
                ) == recs_lookup(objects@, tree@[i].id@)
        },
        r matches Err(CopyError::HashMismatch { expected, actual }) ==> exists|j: int|
            0 <= j < objects@.len() && (#[trigger] objects@[j]).id@ == expected@ && expected@
                != git_object_hash(kind_code(objects@[j].kind), objects@[j].data@),
        r matches Err(CopyError::HashUnavailable { id }) ==> exists|j: int|
            0 <= j < objects@.len() && (#[trigger] objects@[j]).id@ == id@,
        r matches Err(CopyError::MissingObject { id }) ==> recs_lookup(objects@, id@) is None,
        ((forall|j: int|
            0 <= j < objects@.len() ==> (#[trigger] objects@[j]).id@ == git_object_hash(
                kind_code(objects@[j].kind),
                objects@[j].data@,
            )) && (forall|i: int|
            0 <= i < tree@.len() ==> recs_lookup(objects@, (#[trigger] tree@[i]).id@) is Some))
            ==> (r is Ok || r matches Err(CopyError::HashUnavailable { .. })),
{
    let mut store = ObjectStore::new();
    match copy_objects(&mut store, objects) {
        Ok(()) => {},
        Err(e) => {
            return Err(e);
        },
    }
    match checkout(&store, tree) {
        Ok(files) => Ok(IsolatedRepository { store, files }),
        Err(e) => Err(e),
    }
}

} // verus!
