//! What is known of the files of a folder, and in which order they are listed.
use crate::error::{Error, ErrorView};
use crate::paths::{
    file_name, has_file_name, has_vault_extension, is_vault_path, last_component, relative,
    relative_path, set_file_name, with_file_name,
};
use crate::primitives::{blake3_digest, blake3_hash};
use crate::storage::{
    chunk_at, chunk_count, chunk_of, content_hashes, count_chunks, file_chunks,
    law_chunks_make_up_the_file, lemma_chunk_bounds, FileMetadata, FileMetadataView,
};
use crate::text::{
    ends_with, lemma_text_before_total, lemma_text_before_transitive, less_text, owned,
    strip_suffix_text, text_before,
};
use crate::vault::{
    hash_strings, is_vault_of, law_vault_gives_back_what_was_stored, read_vault_chunk_hashes,
    read_vault_header, vault_hashes, vault_header,
};
use vstd::prelude::*;

verus! {

/// Why a file has no metadata, or its metadata.
pub open spec fn plain_metadata(root: Seq<char>, path: Seq<char>, data: Seq<u8>) -> Result<
    FileMetadataView,
    ErrorView,
> {
    match relative(root, path) {
        None => Err(ErrorView::NotRelative { path }),
        Some(name) => Ok(
            FileMetadataView {
                file_name: name,
                total_chunks: chunk_count(data.len()) as usize,
                file_size: data.len() as u64,
                chunk_hashes: content_hashes(data),
                is_vault: false,
            },
        ),
    }
}

/// The metadata of a plain file from its content.
pub fn compute_file_metadata_plain(root: &str, abs_path: &str, data: &[u8]) -> (r: Result<
    FileMetadata,
    Error,
>)
    ensures
        r matches Ok(m) ==> m@.chunk_hashes.len() == m@.total_chunks,
        match r {
            Ok(m) => plain_metadata(root@, abs_path@, data@) == Ok::<FileMetadataView, ErrorView>(
                m@,
            ),
            Err(e) => plain_metadata(root@, abs_path@, data@) == Err::<
                FileMetadataView,
                ErrorView,
            >(e@),
        },
{
    let file_name = match relative_path(root, abs_path) {
        None => {
            return Err(Error::NotRelative { path: owned(abs_path) });
        },
        Some(name) => name,
    };
    let file_size: u64 = data.len() as u64;
    let total_chunks: usize = count_chunks(file_size) as usize;
    proof {
        if data@.len() > 0 {
            lemma_chunk_bounds(data@.len(), 0);
        }
    }
    let mut chunk_hashes: Vec<[u8; 32]> = Vec::new();
    let mut i: usize = 0;
    while i < total_chunks
        invariant
            total_chunks == chunk_count(data@.len()),
            i <= total_chunks,
            hash_strings(chunk_hashes@) == content_hashes(data@).take(i as int),
        decreases total_chunks - i,
    {
        let ghost before = hash_strings(chunk_hashes@);
        let chunk = chunk_at(data, i);
        chunk_hashes.push(blake3_hash(chunk.as_slice()));
        i = i + 1;
        assert(hash_strings(chunk_hashes@) =~= before.push(
            blake3_digest(chunk_of(data@, (i - 1) as nat)),
        ));
        assert(hash_strings(chunk_hashes@) =~= content_hashes(data@).take(i as int));
    }
    assert(hash_strings(chunk_hashes@) =~= content_hashes(data@));
    Ok(FileMetadata { file_name, total_chunks, file_size, chunk_hashes, is_vault: false })
}

/// The path under which the user knows a container.
pub open spec fn visible_path(path: Seq<char>) -> Seq<char> {
    with_file_name(path, last_component(path).take(last_component(path).len() - ".vit"@.len()))
}

/// Why a container has no metadata, or its metadata.
pub open spec fn vault_metadata(root: Seq<char>, path: Seq<char>, data: Seq<u8>) -> Result<
    FileMetadataView,
    ErrorView,
> {
    if !has_file_name(path) {
        Err(ErrorView::BadVaultName { path })
    } else if !ends_with(last_component(path), ".vit"@) {
        Err(ErrorView::NotVaultFile)
    } else {
        match relative(root, visible_path(path)) {
            None => Err(ErrorView::VaultOutsideRoot { path }),
            Some(name) => match vault_header(data) {
                Err(e) => Err(e),
                Ok((uuid, total, size)) => match vault_hashes(data, total as nat) {
                    Err(e) => Err(e),
                    Ok(hashes) => Ok(
                        FileMetadataView {
                            file_name: name,
                            total_chunks: total as usize,
                            file_size: size,
                            chunk_hashes: hashes,
                            is_vault: true,
                        },
                    ),
                },
            },
        }
    }
}

/// The metadata of a container, read without decrypting anything.
pub fn compute_file_metadata_vault(root: &str, abs_path: &str, data: &[u8]) -> (r: Result<
    FileMetadata,
    Error,
>)
    ensures
        match r {
            Ok(m) => vault_metadata(root@, abs_path@, data@) == Ok::<FileMetadataView, ErrorView>(
                m@,
            ),
            Err(e) => vault_metadata(root@, abs_path@, data@) == Err::<
                FileMetadataView,
                ErrorView,
            >(e@),
        },
{
    let name = match file_name(abs_path) {
        None => {
            return Err(Error::BadVaultName { path: owned(abs_path) });
        },
        Some(n) => n,
    };
    let stripped = match strip_suffix_text(name.as_str(), ".vit") {
        None => {
            return Err(Error::NotVaultFile);
        },
        Some(s) => s,
    };
    let visible = set_file_name(abs_path, stripped.as_str());
    let file_name = match relative_path(root, visible.as_str()) {
        None => {
            return Err(Error::VaultOutsideRoot { path: owned(abs_path) });
        },
        Some(n) => n,
    };
    let (_, total, file_size) = match read_vault_header(data) {
        Err(e) => {
            return Err(e);
        },
        Ok(h) => h,
    };
    match read_vault_chunk_hashes(data, total) {
        Err(e) => Err(e),
        Ok(chunk_hashes) => Ok(
            FileMetadata {
                file_name,
                total_chunks: total as usize,
                file_size,
                chunk_hashes,
                is_vault: true,
            },
        ),
    }
}

/// Whether a file of the folder belongs into a listing: in vault mode the
/// containers, else all other files.
pub fn listed(path: &str, vault_mode: bool) -> (r: bool)
    ensures
        r == (is_vault_path(path@) == vault_mode),
{
    has_vault_extension(path) == vault_mode
}

/// A listing with one file more, behind those that do not come after it.
pub open spec fn inserted_by_name(
    files: Seq<FileMetadataView>,
    m: FileMetadataView,
) -> Seq<FileMetadataView>
    decreases files.len(),
{
    if files.len() == 0 {
        seq![m]
    } else if text_before(m.file_name, files.last().file_name) {
        inserted_by_name(files.drop_last(), m).push(files.last())
    } else {
        files.push(m)
    }
}

/// A listing in the order of its names; files of one name keep their order.
pub open spec fn sorted_by_name(files: Seq<FileMetadataView>) -> Seq<FileMetadataView>
    decreases files.len(),
{
    if files.len() == 0 {
        Seq::empty()
    } else {
        inserted_by_name(sorted_by_name(files.drop_last()), files.last())
    }
}

/// No file stands behind one that it comes before.
pub open spec fn in_name_order(files: Seq<FileMetadataView>) -> bool {
    forall|i: int, j: int|
        #![trigger files[i], files[j]]
        0 <= i < j < files.len() ==> !text_before(files[j].file_name, files[i].file_name)
}

proof fn lemma_inserted(files: Seq<FileMetadataView>, m: FileMetadataView)
    requires
        in_name_order(files),
    ensures
        in_name_order(inserted_by_name(files, m)),
        inserted_by_name(files, m).to_multiset() == files.to_multiset().insert(m),
        forall|i: int|
            0 <= i < inserted_by_name(files, m).len() ==> #[trigger] inserted_by_name(files, m)[i]
                == m || files.contains(inserted_by_name(files, m)[i]),
    decreases files.len(),
{
    broadcast use vstd::seq_lib::group_to_multiset_ensures;

    let r = inserted_by_name(files, m);
    if files.len() == 0 {
        assert(r =~= files.push(m));
    } else if text_before(m.file_name, files.last().file_name) {
        let d = files.drop_last();
        assert forall|i: int, j: int|
            #![trigger d[i], d[j]]
            0 <= i < j < d.len() implies !text_before(d[j].file_name, d[i].file_name) by {
            assert(d[i] == files[i] && d[j] == files[j]);
        }
        lemma_inserted(d, m);
        let head = inserted_by_name(d, m);
        assert forall|i: int, j: int|
            #![trigger r[i], r[j]]
            0 <= i < j < r.len() implies !text_before(r[j].file_name, r[i].file_name) by {
            if j == head.len() {
                assert(r[i] == head[i]);
                if head[i] == m {
                    lemma_text_before_total(m.file_name, files.last().file_name);
                } else {
                    assert(d.contains(head[i]));
                    let w = choose|w: int| 0 <= w < d.len() && d[w] == head[i];
                    assert(files[w] == head[i]);
                    assert(!text_before(files[files.len() - 1].file_name, files[w].file_name));
                }
            } else {
                assert(r[i] == head[i] && r[j] == head[j]);
            }
        }
        assert forall|i: int| 0 <= i < r.len() implies #[trigger] r[i] == m || files.contains(
            r[i],
        ) by {
            if i < head.len() {
                assert(r[i] == head[i]);
                if head[i] != m {
                    assert(d.contains(head[i]));
                    let w = choose|w: int| 0 <= w < d.len() && d[w] == head[i];
                    assert(files[w] == head[i]);
                }
            } else {
                assert(r[i] == files[files.len() - 1]);
            }
        }
        assert(files =~= d.push(files.last()));
        assert(r =~= head.push(files.last()));
        assert(files.to_multiset() == d.to_multiset().insert(files.last()));
        assert(r.to_multiset() =~= files.to_multiset().insert(m));
    } else {
        assert forall|i: int, j: int|
            #![trigger r[i], r[j]]
            0 <= i < j < r.len() implies !text_before(r[j].file_name, r[i].file_name) by {
            assert(r[i] == files[i]);
            if j == files.len() {
                if i < files.len() - 1 {
                    assert(!text_before(files[files.len() - 1].file_name, files[i].file_name));
                    lemma_text_before_transitive(
                        files[i].file_name,
                        files.last().file_name,
                        m.file_name,
                    );
                }
            } else {
                assert(r[j] == files[j]);
            }
        }
        assert forall|i: int| 0 <= i < r.len() implies #[trigger] r[i] == m || files.contains(
            r[i],
        ) by {
            if i < files.len() {
                assert(r[i] == files[i]);
            }
        }
    }
}

/// A sorted listing holds the same files, in the order of their names.
pub proof fn law_sorting_keeps_the_files(files: Seq<FileMetadataView>)
    ensures
        in_name_order(sorted_by_name(files)),
        sorted_by_name(files).to_multiset() == files.to_multiset(),
    decreases files.len(),
{
    broadcast use vstd::seq_lib::group_to_multiset_ensures;

    if files.len() > 0 {
        law_sorting_keeps_the_files(files.drop_last());
        lemma_inserted(sorted_by_name(files.drop_last()), files.last());
        assert(files =~= files.drop_last().push(files.last()));
    } else {
        assert(files =~= Seq::empty());
    }
}

/// The views of a list of metadata.
pub open spec fn metadata_views(v: Seq<FileMetadata>) -> Seq<FileMetadataView> {
    v.map_values(|m: FileMetadata| m@)
}

fn insert_by_name(files: &mut Vec<FileMetadata>, m: FileMetadata)
    ensures
        metadata_views(final(files)@) == inserted_by_name(metadata_views(old(files)@), m@),
{
    let ghost start = metadata_views(files@);
    let mut at: usize = files.len();
    let ghost mut tail: Seq<FileMetadataView> = Seq::empty();
    assert(start.take(at as int) =~= start);
    assert(inserted_by_name(start, m@) =~= inserted_by_name(start.take(at as int), m@) + tail);
    while at > 0 && less_text(m.file_name.as_str(), files[at - 1].file_name.as_str())
        invariant
            at <= files@.len(),
            start == metadata_views(files@),
            tail == start.skip(at as int),
            inserted_by_name(start, m@) == inserted_by_name(start.take(at as int), m@) + tail,
        decreases at,
    {
        proof {
            let head = start.take(at as int);
            let one = start.take(at - 1);
            assert(head.drop_last() =~= one);
            assert(head.last() == start[at - 1]);
            tail = seq![start[at - 1]] + tail;
            assert(tail =~= start.skip(at - 1));
            assert(inserted_by_name(head, m@) + start.skip(at as int) =~= inserted_by_name(one, m@)
                + tail);
        }
        at = at - 1;
    }
    let ghost mv = m@;
    proof {
        let head = start.take(at as int);
        if at > 0 {
            assert(head.last() == start[at - 1]);
            assert(inserted_by_name(head, mv) == head.push(mv));
        } else {
            assert(inserted_by_name(head, mv) =~= head.push(mv));
        }
    }
    files.insert(at, m);
    assert(metadata_views(files@) =~= start.take(at as int).push(mv) + start.skip(at as int));
}

/// Sorts a listing by name.
pub fn sort_listing(files: Vec<FileMetadata>) -> (r: Vec<FileMetadata>)
    ensures
        metadata_views(r@) == sorted_by_name(metadata_views(files@)),
{
    let ghost all = metadata_views(files@);
    let mut rest = files;
    let mut reversed: Vec<FileMetadata> = Vec::new();
    while rest.len() > 0
        invariant
            all == metadata_views(rest@) + metadata_views(reversed@).reverse(),
        decreases rest.len(),
    {
        let ghost before = metadata_views(rest@);
        let ghost back = metadata_views(reversed@);
        match rest.pop() {
            Some(m) => {
                let ghost mv = m@;
                reversed.push(m);
                assert(metadata_views(rest@) =~= before.drop_last());
                assert(metadata_views(reversed@) =~= back.push(mv));
                assert(all =~= metadata_views(rest@) + metadata_views(reversed@).reverse());
            },
            None => {},
        }
    }
    let mut out: Vec<FileMetadata> = Vec::new();
    let ghost mut done: int = 0;
    assert(all.take(0) =~= Seq::empty());
    assert(metadata_views(out@) =~= Seq::empty());
    assert(all =~= all.take(0) + metadata_views(reversed@).reverse());
    while reversed.len() > 0
        invariant
            0 <= done,
            done + reversed@.len() == all.len(),
            all.skip(done) == metadata_views(reversed@).reverse(),
            metadata_views(out@) == sorted_by_name(all.take(done)),
        decreases reversed.len(),
    {
        let ghost back = metadata_views(reversed@);
        match reversed.pop() {
            Some(m) => {
                proof {
                    assert(back.reverse()[0] == back.last());
                    assert(all.skip(done)[0] == all[done]);
                    assert(m@ == all[done]);
                    assert(all.take(done + 1).drop_last() =~= all.take(done));
                    assert(metadata_views(reversed@) =~= back.drop_last());
                    assert(all.skip(done + 1) =~= all.skip(done).drop_first());
                    assert(all.skip(done + 1) =~= metadata_views(reversed@).reverse());
                    done = done + 1;
                }
                insert_by_name(&mut out, m);
            },
            None => {},
        }
    }
    assert(all.take(done) =~= all);
    out
}

/// What is told of a plain file: its name in the folder, its size, and the hash of each of
/// its chunks. The chunks are as many as it takes, the last not empty.
pub proof fn law_plain_file_is_described(root: Seq<char>, path: Seq<char>, data: Seq<u8>, i: int)
    requires
        data.len() <= u64::MAX,
        chunk_count(data.len()) <= usize::MAX,
    ensures
        plain_metadata(root, path, data) is Err <==> relative(root, path) is None,
        plain_metadata(root, path, data) matches Ok(m) ==> {
            &&& relative(root, path) == Some(m.file_name)
            &&& m.file_size == data.len()
            &&& !m.is_vault
            &&& m.chunk_hashes.len() == m.total_chunks
            &&& data.len() == 0 ==> m.total_chunks == 1
            &&& data.len() > 0 ==> (m.total_chunks - 1) * 524288 < data.len() <= m.total_chunks
                * 524288
            &&& 0 <= i < m.total_chunks ==> m.chunk_hashes[i] == blake3_digest(
                data.subrange(
                    i * 524288,
                    if (i + 1) * 524288 < data.len() {
                        (i + 1) * 524288
                    } else {
                        data.len() as int
                    },
                ),
            )
        },
{
    let n = chunk_count(data.len());
    law_chunks_make_up_the_file(data);
    if data.len() > 0 {
        lemma_chunk_bounds(data.len(), (n - 1) as nat);
        lemma_chunk_bounds(data.len(), n);
    }
    if 0 <= i < n {
        assert(content_hashes(data)[i] == blake3_digest(file_chunks(data)[i]));
        assert(file_chunks(data)[i] == chunk_of(data, i as nat));
        if data.len() > 0 {
            lemma_chunk_bounds(data.len(), i as nat);
            let to = if (i + 1) * 524288 < data.len() {
                (i + 1) * 524288
            } else {
                data.len() as int
            };
            assert(chunk_of(data, i as nat) =~= data.subrange(i * 524288, to));
        } else {
            assert(chunk_of(data, i as nat) =~= data.subrange(0, 0));
        }
    }
}

/// A container is told of as the file that it holds, by the same name, size and hashes.
pub proof fn law_container_is_described_as_its_file(
    root: Seq<char>,
    path: Seq<char>,
    file: Seq<u8>,
    uuid: Seq<u8>,
    data: Seq<u8>,
    key: Seq<u8>,
    name: Seq<char>,
)
    requires
        is_vault_of(file, uuid, file_chunks(data), key),
        has_file_name(path),
        ends_with(last_component(path), ".vit"@),
        relative(
            root,
            with_file_name(path, last_component(path).take(last_component(path).len() - 4)),
        ) == Some(name),
    ensures
        vault_metadata(root, path, file) matches Ok(m) && m.file_name == name && m.file_size
            == data.len() && m.is_vault && m.total_chunks == chunk_count(data.len())
            && m.chunk_hashes == content_hashes(data),
{
    reveal_strlit(".vit");
    law_chunks_make_up_the_file(data);
    law_vault_gives_back_what_was_stored(file, uuid, file_chunks(data), key);
}

/// Why a file, or a container, is not listed.
pub proof fn law_why_a_file_is_not_listed(root: Seq<char>, path: Seq<char>, data: Seq<u8>)
    ensures
        relative(root, path) is None ==> plain_metadata(root, path, data) == Err::<
            FileMetadataView,
            ErrorView,
        >(ErrorView::NotRelative { path }),
        relative(root, path) is Some ==> plain_metadata(root, path, data) is Ok,
        ({
            let listed = vault_metadata(root, path, data);
            let refused = |e: ErrorView| listed == Err::<FileMetadataView, ErrorView>(e);
            let named = has_file_name(path) && ends_with(last_component(path), ".vit"@);
            let placed = relative(root, visible_path(path)) is Some;
            &&& !has_file_name(path) ==> refused(ErrorView::BadVaultName { path })
            &&& has_file_name(path) && !named ==> refused(ErrorView::NotVaultFile)
            &&& named && !placed ==> refused(ErrorView::VaultOutsideRoot { path })
            &&& named && placed ==> (vault_header(data) matches Err(e) ==> refused(e))
            &&& named && placed ==> (vault_header(data) matches Ok((uuid, total, size)) ==> {
                &&& listed is Ok <==> vault_hashes(data, total as nat) is Ok
                &&& vault_hashes(data, total as nat) matches Err(e) ==> refused(e)
            })
        }),
{
}

} // verus!
