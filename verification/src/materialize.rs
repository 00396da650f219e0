use vstd::prelude::*;

use crate::auth::str_eq;
use crate::errors::LaunchError;

verus! {

/// One entry of an unpacked layer archive: a path relative to the root and
/// the bytes stored at that path.
#[derive(Debug)]
pub struct FsEntry {
    pub path: String,
    pub data: Vec<u8>,
}

/// What a gzip stream decompresses to, when its bytes are a valid stream;
/// a function of the bytes alone.
pub uninterp spec fn gunzip_of(data: Seq<u8>) -> Option<Seq<u8>>;

/// The entries of a tar archive, in archive order, each a path with its
/// contents, when the bytes are a readable archive; a function of the bytes
/// alone.
pub uninterp spec fn tar_entries_of(data: Seq<u8>) -> Option<Seq<(Seq<char>, Seq<u8>)>>;

/// The path/content reading of a sequence of entries.
pub open spec fn entries_view(s: Seq<FsEntry>) -> Seq<(Seq<char>, Seq<u8>)> {
    s.map_values(|e: FsEntry| (e.path@, e.data@))
}

/// Relies on flate2's `read::GzDecoder`: reading it to the end yields the
/// decompressed bytes of the stream and fails exactly when the bytes are not
/// a valid gzip stream.
#[verifier::external_body]
fn gunzip(data: &[u8]) -> (r: Result<Vec<u8>, LaunchError>)
    ensures
        r is Ok <==> gunzip_of(data@) is Some,
        r matches Ok(out) ==> Some(out@) == gunzip_of(data@),
        r matches Err(e) ==> e == LaunchError::UnpackError,
{
    let mut decoder = flate2::read::GzDecoder::new(data);
    let mut out = Vec::new();
    match std::io::Read::read_to_end(&mut decoder, &mut out) {
        Ok(_) => Ok(out),
        Err(_) => Err(LaunchError::UnpackError),
    }
}

/// Relies on tar's `Archive`: iterating its entries yields each entry's path
/// and contents, in archive order, and fails exactly when the bytes are not
/// a readable archive.
#[verifier::external_body]
fn untar(data: &[u8]) -> (r: Result<Vec<FsEntry>, LaunchError>)
    ensures
        r is Ok <==> tar_entries_of(data@) is Some,
        r matches Ok(out) ==> Some(entries_view(out@)) == tar_entries_of(data@),
        r matches Err(e) ==> e == LaunchError::UnpackError,
{
    let mut archive = tar::Archive::new(data);
    let mut out = Vec::new();
    for entry in archive.entries().map_err(|_| LaunchError::UnpackError)? {
        let mut entry = entry.map_err(|_| LaunchError::UnpackError)?;
        let path = entry.path().map_err(|_| LaunchError::UnpackError)?.to_string_lossy().into_owned();
        let mut data = Vec::new();
        std::io::Read::read_to_end(&mut entry, &mut data).map_err(|_| LaunchError::UnpackError)?;
        out.push(FsEntry { path, data });
    }
    Ok(out)
}

/// Decompresses one fetched layer blob and unpacks it into its entries, in
/// archive order. Fails with an unpack error exactly when the blob is not a
/// gzip-compressed, readable tar archive.
pub fn decode_layer(data: &[u8]) -> (r: Result<Vec<FsEntry>, LaunchError>)
    ensures
        r is Ok <==> (gunzip_of(data@) is Some && tar_entries_of(gunzip_of(data@).unwrap()) is Some),
        r matches Ok(out) ==> Some(entries_view(out@)) == tar_entries_of(gunzip_of(data@).unwrap()),
        r matches Err(e) ==> e == LaunchError::UnpackError,
{
    let bytes = match gunzip(data) {
        Ok(b) => b,
        Err(e) => {
            return Err(e);
        },
    };
    untar(bytes.as_slice())
}

/// The content at `path` after a sequence of entries is written in order:
/// the last entry with that path wins.
pub open spec fn lookup(entries: Seq<FsEntry>, path: Seq<char>) -> Option<Seq<u8>>
    decreases entries.len(),
{
    if entries.len() == 0 {
        None
    } else if entries.last().path@ == path {
        Some(entries.last().data@)
    } else {
        lookup(entries.drop_last(), path)
    }
}

/// The first of two optional contents that is present.
pub open spec fn newest(a: Option<Seq<u8>>, b: Option<Seq<u8>>) -> Option<Seq<u8>> {
    if a is Some {
        a
    } else {
        b
    }
}

/// The root after the layers are applied in manifest order: each layer's
/// entries are written after those of every layer before it.
pub open spec fn apply_layers(root: Seq<FsEntry>, layers: Seq<Seq<FsEntry>>) -> Seq<FsEntry>
    decreases layers.len(),
{
    if layers.len() == 0 {
        root
    } else {
        apply_layers(root, layers.drop_last()) + layers.last()
    }
}

/// Applies one decoded layer onto a materialized root: the layer's entries
/// are written after everything already present, so its files overwrite
/// earlier ones. The layer is drained.
pub fn apply_layer(root: &mut Vec<FsEntry>, layer: &mut Vec<FsEntry>)
    ensures
        final(root)@ == old(root)@ + old(layer)@,
        final(layer)@.len() == 0,
{
    root.append(layer);
}

/// The content at `path` in a materialized root: the last write wins.
pub fn lookup_file<'a>(root: &'a Vec<FsEntry>, path: &str) -> (r: Option<&'a Vec<u8>>)
    ensures
        match r {
            Some(d) => lookup(root@, path@) == Some(d@),
            None => lookup(root@, path@) is None,
        },
{
    let mut k: usize = root.len();
    proof {
        assert(root@.take(k as int) =~= root@);
    }
    while k > 0
        invariant
            0 <= k <= root@.len(),
            lookup(root@, path@) == lookup(root@.take(k as int), path@),
        decreases k,
    {
        proof {
            assert(root@.take(k as int).last() == root@[k as int - 1]);
            assert(root@.take(k as int).drop_last() =~= root@.take(k as int - 1));
        }
        if str_eq(root[k - 1].path.as_str(), path) {
            return Some(&root[k - 1].data);
        }
        k = k - 1;
    }
    None
}

/// In a concatenation of entries, a lookup finds the later part's content
/// and falls back to the earlier part's.
pub proof fn lemma_lookup_concat(a: Seq<FsEntry>, b: Seq<FsEntry>, path: Seq<char>)
    ensures
        lookup(a + b, path) == newest(lookup(b, path), lookup(a, path)),
    decreases b.len(),
{
    if b.len() == 0 {
        assert(a + b =~= a);
    } else {
        lemma_lookup_concat(a, b.drop_last(), path);
        assert((a + b).drop_last() =~= a + b.drop_last());
        assert((a + b).last() == b.last());
    }
}

/// Last applied wins: when layer `i` writes `path` and no later layer does,
/// the materialized root holds layer `i`'s content for `path`, whatever the
/// earlier layers and the starting root held.
pub proof fn lemma_layer_order(root: Seq<FsEntry>, layers: Seq<Seq<FsEntry>>, i: int, path: Seq<char>)
    requires
        0 <= i < layers.len(),
        lookup(layers[i], path) is Some,
        forall|j: int| i < j < layers.len() ==> lookup(layers[j], path) is None,
    ensures
        lookup(apply_layers(root, layers), path) == lookup(layers[i], path),
    decreases layers.len(),
{
    lemma_lookup_concat(apply_layers(root, layers.drop_last()), layers.last(), path);
    if i == layers.len() - 1 {
    } else {
        assert(layers.drop_last()[i] == layers[i]);
        lemma_layer_order(root, layers.drop_last(), i, path);
    }
}

} // verus!
