//! Finding a file in a downloaded archive.
use crate::config::{Config, Fault};
use crate::path::{check_path, file_name, find_file_name, is_path, Platform};
use crate::text::same_bytes;
use std::io::Read;
use vstd::prelude::*;
use vstd::utf8::{encode_utf8, valid_utf8};

verus! {

/// The paths that the headers of a gzipped tar archive hold, in order, as `tar::Archive::entries`
/// gives them over `flate2::read::GzDecoder`; `None` for an entry that cannot be read.
pub uninterp spec fn tar_gz_paths(compressed: Seq<u8>) -> Seq<Option<Seq<u8>>>;

/// The paths that the headers of an xz-compressed tar archive hold, in order, as
/// `tar::Archive::entries` gives them over `xz2::read::XzDecoder`; `None` for an entry that cannot
/// be read.
pub uninterp spec fn tar_xz_paths(compressed: Seq<u8>) -> Seq<Option<Seq<u8>>>;

/// The names of the members of a zip archive, in the order of `zip::ZipArchive::file_names`; `None`
/// where `zip::ZipArchive::new` reports an error.
pub uninterp spec fn zip_file_names(compressed: Seq<u8>) -> Option<Seq<Seq<char>>>;

/// Whether `zip::ZipArchive::by_name` opens a member of a zip archive.
pub uninterp spec fn zip_opens(compressed: Seq<u8>, name: Seq<char>) -> bool;

/// What a member of a zip archive that `zip::ZipArchive::by_name` opens reads as; `None` where it
/// cannot be opened or read to its end.
pub uninterp spec fn zip_contents(compressed: Seq<u8>, name: Seq<char>) -> Option<Seq<u8>>;

/// Walks a gzipped tar archive with `tar::Archive::entries` over `flate2::read::GzDecoder`, and
/// reads the path of each entry with `tar::Header::path_bytes`. The walk ends after an entry that
/// cannot be read. Walking an archive from its start never fails as a whole.
#[verifier::external_body]
fn list_tar_gz(compressed: &[u8]) -> (r: Vec<Option<Vec<u8>>>)
    ensures
        r.deep_view() == tar_gz_paths(compressed@),
{
    let mut archive = tar::Archive::new(flate2::read::GzDecoder::new(compressed));
    archive.entries().unwrap().map(
        |entry| entry.ok().map(|e| e.header().path_bytes().into_owned()),
    ).collect()
}

/// Walks an xz-compressed tar archive with `tar::Archive::entries` over `xz2::read::XzDecoder`, and
/// reads the path of each entry with `tar::Header::path_bytes`. The walk ends after an entry that
/// cannot be read. Walking an archive from its start never fails as a whole.
#[verifier::external_body]
fn list_tar_xz(compressed: &[u8]) -> (r: Vec<Option<Vec<u8>>>)
    ensures
        r.deep_view() == tar_xz_paths(compressed@),
{
    let mut archive = tar::Archive::new(xz2::read::XzDecoder::new(compressed));
    archive.entries().unwrap().map(
        |entry| entry.ok().map(|e| e.header().path_bytes().into_owned()),
    ).collect()
}

/// Opens a zip archive with `zip::ZipArchive::new`, lists it with `file_names`, and tries
/// `by_name` on each name.
#[verifier::external_body]
fn list_zip(compressed: &[u8]) -> (r: Option<Vec<(String, bool)>>)
    ensures
        match r {
            Some(listing) => {
                &&& zip_file_names(compressed@) == Some(
                    Seq::new(listing@.len(), |i: int| listing@[i].0@),
                )
                &&& forall|i: int|
                    0 <= i < listing@.len() ==> (#[trigger] listing@[i]).1 == zip_opens(
                        compressed@,
                        listing@[i].0@,
                    )
            },
            None => zip_file_names(compressed@) is None,
        },
{
    let mut archive = zip::ZipArchive::new(std::io::Cursor::new(compressed)).ok()?;
    let names: Vec<String> = archive.file_names().map(String::from).collect();
    let opens: Vec<bool> = names.iter().map(|name| archive.by_name(name).is_ok()).collect();
    Some(names.into_iter().zip(opens).collect())
}

/// Opens a zip archive with `zip::ZipArchive::new`, and reads a member that `by_name` opens to its
/// end.
#[verifier::external_body]
fn read_zip_member(compressed: &[u8], name: &str) -> (r: Option<Vec<u8>>)
    ensures
        r.deep_view() == zip_contents(compressed@, name@),
{
    let mut archive = zip::ZipArchive::new(std::io::Cursor::new(compressed)).ok()?;
    let mut contents: Vec<u8> = Vec::new();
    archive.by_name(name).ok()?.read_to_end(&mut contents).ok()?;
    Some(contents)
}

/// Whether an entry of an archive can be read, and its path is one on the platform.
pub open spec fn is_readable(path: Option<Seq<u8>>, platform: Platform) -> bool {
    path is Some && is_path(path->0, platform)
}

/// Where the first entry stands that cannot be read or whose file name is `target`; the number of
/// entries, if there is none.
pub open spec fn first_stop(
    paths: Seq<Option<Seq<u8>>>,
    target: Seq<u8>,
    platform: Platform,
) -> nat
    decreases paths.len(),
{
    if paths.len() == 0 || !is_readable(paths[0], platform) || file_name(paths[0]->0, platform)
        == Some(target) {
        0
    } else {
        1 + first_stop(paths.drop_first(), target, platform)
    }
}

/// Which entry of an archive a file name leads to: the first that has it, if no entry before that
/// one is unreadable.
pub open spec fn member(
    paths: Seq<Option<Seq<u8>>>,
    target: Option<Seq<char>>,
    platform: Platform,
) -> Result<Option<nat>, Fault> {
    match target {
        None => Err(Fault::MissingTargetFilename),
        Some(target) => {
            let i = first_stop(paths, encode_utf8(target), platform);
            if i >= paths.len() {
                Ok(None)
            } else if !is_readable(paths[i as int], platform) {
                Err(Fault::BrokenArchive)
            } else {
                Ok(Some(i))
            }
        },
    }
}

/// The paths of the members of a zip archive; `None` for a member that does not open.
pub open spec fn zip_paths(listing: Seq<(Seq<char>, bool)>) -> Seq<Option<Seq<u8>>> {
    Seq::new(
        listing.len(),
        |i: int|
            if listing[i].1 {
                Some(encode_utf8(listing[i].0))
            } else {
                None
            },
    )
}

/// The members of a zip archive, in order, and whether each opens; `None` if it is no zip archive.
pub open spec fn zip_listing(compressed: Seq<u8>) -> Option<Seq<(Seq<char>, bool)>> {
    match zip_file_names(compressed) {
        Some(names) => Some(
            Seq::new(names.len(), |i: int| (names[i], zip_opens(compressed, names[i]))),
        ),
        None => None,
    }
}

/// Which member of a zip archive a file name leads to.
pub open spec fn zip_member(
    listing: Option<Seq<(Seq<char>, bool)>>,
    target: Option<Seq<char>>,
    platform: Platform,
) -> Result<Option<nat>, Fault> {
    match listing {
        None => Err(Fault::BrokenArchive),
        Some(listing) => member(zip_paths(listing), target, platform),
    }
}

/// What a file name leads to in a zip archive.
pub open spec fn zip_extract(
    compressed: Seq<u8>,
    target: Option<Seq<char>>,
    platform: Platform,
) -> Result<Option<Seq<u8>>, Fault> {
    match zip_member(zip_listing(compressed), target, platform) {
        Ok(Some(i)) => match zip_contents(compressed, zip_listing(compressed)->0[i as int].0) {
            Some(contents) => Ok(Some(contents)),
            None => Err(Fault::BrokenArchive),
        },
        Ok(None) => Ok(None),
        Err(fault) => Err(fault),
    }
}

/// The number in what a search gave.
pub open spec fn search_outcome(r: Result<Option<usize>, Fault>) -> Result<Option<nat>, Fault> {
    match r {
        Ok(Some(i)) => Ok(Some(i as nat)),
        Ok(None) => Ok(None),
        Err(fault) => Err(fault),
    }
}

/// The bytes in what an extraction gave.
pub open spec fn contents_outcome(r: Result<Option<Vec<u8>>, Fault>) -> Result<
    Option<Seq<u8>>,
    Fault,
> {
    match r {
        Ok(Some(contents)) => Ok(Some(contents@)),
        Ok(None) => Ok(None),
        Err(fault) => Err(fault),
    }
}

/// Finds the entry that a file name leads to.
pub fn find_member(
    paths: &Vec<Option<Vec<u8>>>,
    target: &Option<String>,
    platform: Platform,
) -> (r: Result<Option<usize>, Fault>)
    ensures
        search_outcome(r) == member(paths.deep_view(), target.deep_view(), platform),
{
    let file = match target {
        Some(file) => file,
        None => return Err(Fault::MissingTargetFilename),
    };
    let wanted = file.as_str().as_bytes();
    let ghost all = paths.deep_view();
    let mut i: usize = 0;
    assert(all.skip(0) =~= all);
    while i < paths.len()
        invariant
            i <= paths@.len(),
            all == paths.deep_view(),
            target.deep_view() == Some(file@),
            wanted@ == encode_utf8(file@),
            first_stop(all, wanted@, platform) == i + first_stop(
                all.skip(i as int),
                wanted@,
                platform,
            ),
        decreases paths@.len() - i,
    {
        assert(all.skip(i as int)[0] == all[i as int]);
        assert(all[i as int] == paths@[i as int].deep_view());
        match &paths[i] {
            None => return Err(Fault::BrokenArchive),
            Some(path) => {
                assert(path.deep_view() =~= path@);
                if !check_path(path.as_slice(), platform) {
                    return Err(Fault::BrokenArchive);
                }
                let found = match find_file_name(path.as_slice(), platform) {
                    Some(name) => same_bytes(name, wanted),
                    None => false,
                };
                if found {
                    return Ok(Some(i));
                }
            },
        }
        assert(all.skip(i as int).drop_first() =~= all.skip(i + 1));
        i += 1;
    }
    Ok(None)
}

/// Finds the member of a zip archive that a file name leads to.
pub fn find_zip_member(
    listing: &Option<Vec<(String, bool)>>,
    target: &Option<String>,
    platform: Platform,
) -> (r: Result<Option<usize>, Fault>)
    ensures
        search_outcome(r) == zip_member(listing.deep_view(), target.deep_view(), platform),
{
    let listing = match listing {
        Some(listing) => listing,
        None => return Err(Fault::BrokenArchive),
    };
    let mut paths: Vec<Option<Vec<u8>>> = Vec::new();
    let mut i: usize = 0;
    while i < listing.len()
        invariant
            i <= listing@.len(),
            paths@.len() == i,
            forall|j: int|
                0 <= j < i ==> #[trigger] paths@[j].deep_view() == zip_paths(
                    listing.deep_view(),
                )[j],
        decreases listing@.len() - i,
    {
        let entry = &listing[i];
        if entry.1 {
            let path = entry.0.as_str().as_bytes_vec();
            assert(path.deep_view() =~= path@);
            paths.push(Some(path));
        } else {
            paths.push(None);
        }
        i += 1;
    }
    assert(paths.deep_view() =~= zip_paths(listing.deep_view()));
    find_member(&paths, target, platform)
}

/// Finds the entry of a gzipped tar archive that holds the file of a configuration.
pub fn extract_target_from_tarfile(compressed: &[u8], conf: &Config, platform: Platform) -> (r:
    Result<Option<usize>, Fault>)
    ensures
        search_outcome(r) == member(
            tar_gz_paths(compressed@),
            conf@.target_filename_to_extract_from_archive,
            platform,
        ),
{
    find_member(&list_tar_gz(compressed), &conf.target_filename_to_extract_from_archive, platform)
}

/// Finds the entry of an xz-compressed tar archive that holds the file of a configuration.
pub fn extract_target_from_tarxz(compressed: &[u8], conf: &Config, platform: Platform) -> (r:
    Result<Option<usize>, Fault>)
    ensures
        search_outcome(r) == member(
            tar_xz_paths(compressed@),
            conf@.target_filename_to_extract_from_archive,
            platform,
        ),
{
    find_member(&list_tar_xz(compressed), &conf.target_filename_to_extract_from_archive, platform)
}

/// Reads the file of a configuration out of a zip archive.
pub fn extract_target_from_zipfile(compressed: &[u8], conf: &Config, platform: Platform) -> (r:
    Result<Option<Vec<u8>>, Fault>)
    ensures
        contents_outcome(r) == zip_extract(
            compressed@,
            conf@.target_filename_to_extract_from_archive,
            platform,
        ),
{
    let listing = list_zip(compressed);
    proof {
        if listing is Some {
            assert(listing.deep_view()->0 =~= zip_listing(compressed@)->0);
        }
    }
    match find_zip_member(&listing, &conf.target_filename_to_extract_from_archive, platform) {
        Ok(Some(i)) => {
            let name = match &listing {
                Some(listing) => listing[i].0.clone(),
                None => return Err(Fault::BrokenArchive),
            };
            match read_zip_member(compressed, name.as_str()) {
                Some(contents) => {
                    assert(contents.deep_view() =~= contents@);
                    Ok(Some(contents))
                },
                None => Err(Fault::BrokenArchive),
            }
        },
        Ok(None) => Ok(None),
        Err(fault) => Err(fault),
    }
}

/// Whether an entry can be read and does not have a file name.
pub open spec fn is_passed_over(
    path: Option<Seq<u8>>,
    target: Seq<char>,
    platform: Platform,
) -> bool {
    is_readable(path, platform) && file_name(path->0, platform) != Some(encode_utf8(target))
}

/// What a search of an archive comes to. The entry that is found is the first one with the file
/// name, and all before it can be read. Nothing is found exactly when every entry can be read and
/// none has the file name. The search fails exactly when an entry cannot be read, and all before
/// it can be and do not have the file name.
pub proof fn law_member_is_first(
    paths: Seq<Option<Seq<u8>>>,
    target: Seq<char>,
    platform: Platform,
)
    ensures
        forall|i: nat|
            member(paths, Some(target), platform) == Ok::<_, Fault>(Some(i)) <==> {
                &&& i < paths.len()
                &&& is_readable(paths[i as int], platform)
                &&& file_name(paths[i as int]->0, platform) == Some(encode_utf8(target))
                &&& forall|j: int|
                    0 <= j < i ==> is_passed_over(#[trigger] paths[j], target, platform)
            },
        member(paths, Some(target), platform) == Ok::<Option<nat>, Fault>(None) <==> forall|j: int|
            0 <= j < paths.len() ==> is_passed_over(#[trigger] paths[j], target, platform),
        member(paths, Some(target), platform) is Err <==> exists|i: int|
            {
                &&& 0 <= i < paths.len()
                &&& !is_readable(#[trigger] paths[i], platform)
                &&& forall|j: int|
                    0 <= j < i ==> is_passed_over(#[trigger] paths[j], target, platform)
            },
        member(paths, Some(target), platform) matches Err(fault) ==> fault == Fault::BrokenArchive,
{
    lemma_first_stop(paths, target, platform);
    let p = first_stop(paths, encode_utf8(target), platform) as int;
    assert forall|i: nat|
        member(paths, Some(target), platform) == Ok::<_, Fault>(Some(i)) <==> {
            &&& i < paths.len()
            &&& is_readable(paths[i as int], platform)
            &&& file_name(paths[i as int]->0, platform) == Some(encode_utf8(target))
            &&& forall|j: int| 0 <= j < i ==> is_passed_over(#[trigger] paths[j], target, platform)
        } by {
        if i < paths.len() && !is_passed_over(paths[i as int], target, platform) && (forall|j: int|
            0 <= j < i ==> is_passed_over(#[trigger] paths[j], target, platform)) {
            if i < p {
                assert(is_passed_over(paths[i as int], target, platform));
            }
            if p < i {
                assert(is_passed_over(paths[p], target, platform));
            }
        }
    }
    if forall|j: int|
        0 <= j < paths.len() ==> is_passed_over(#[trigger] paths[j], target, platform) {
        if p < paths.len() {
            assert(is_passed_over(paths[p], target, platform));
        }
    }
    if exists|i: int|
        {
            &&& 0 <= i < paths.len()
            &&& !is_readable(#[trigger] paths[i], platform)
            &&& forall|j: int| 0 <= j < i ==> is_passed_over(#[trigger] paths[j], target, platform)
        } {
        let i = choose|i: int|
            {
                &&& 0 <= i < paths.len()
                &&& !is_readable(#[trigger] paths[i], platform)
                &&& forall|j: int|
                    0 <= j < i ==> is_passed_over(#[trigger] paths[j], target, platform)
            };
        if i < p {
            assert(is_passed_over(paths[i], target, platform));
        }
        if p < i {
            assert(is_passed_over(paths[p], target, platform));
        }
    }
}

/// What a search of an archive comes to, told by the entries alone. Let `i` be the first entry that
/// cannot be read or has the wanted file name (the number of entries, if there is none). If it can
/// be read, it is what is found; else the search fails; and without such an entry nothing is found.
/// Without a file name to look for there is no search.
pub proof fn law_search_stops_at_the_first_entry(
    paths: Seq<Option<Seq<u8>>>,
    target: Seq<char>,
    platform: Platform,
    i: int,
)
    requires
        0 <= i <= paths.len(),
        forall|j: int|
            0 <= j < i ==> (#[trigger] paths[j]) is Some && (platform == Platform::Windows
                ==> valid_utf8(paths[j]->0)) && file_name(paths[j]->0, platform) != Some(
                encode_utf8(target),
            ),
    ensures
        i == paths.len() ==> member(paths, Some(target), platform) == Ok::<Option<nat>, Fault>(
            None,
        ),
        i < paths.len() && paths[i] is None ==> member(paths, Some(target), platform) == Err::<
            Option<nat>,
            _,
        >(Fault::BrokenArchive),
        i < paths.len() && platform == Platform::Windows && paths[i] is Some && !valid_utf8(
            paths[i]->0,
        ) ==> member(paths, Some(target), platform) == Err::<Option<nat>, _>(Fault::BrokenArchive),
        i < paths.len() && paths[i] is Some && (platform == Platform::Windows ==> valid_utf8(
            paths[i]->0,
        )) && file_name(paths[i]->0, platform) == Some(encode_utf8(target)) ==> member(
            paths,
            Some(target),
            platform,
        ) == Ok::<_, Fault>(Some(i as nat)),
        member(paths, None, platform) == Err::<Option<nat>, _>(Fault::MissingTargetFilename),
{
    lemma_first_stop(paths, target, platform);
    let p = first_stop(paths, encode_utf8(target), platform) as int;
    assert forall|j: int| 0 <= j < i implies is_passed_over(
        #[trigger] paths[j],
        target,
        platform,
    ) by {
        assert(paths[j] is Some);
    }
    if p < i {
        assert(is_passed_over(paths[p], target, platform));
    }
    if i < p {
        assert(is_passed_over(paths[i], target, platform));
    }
}

/// What a search of the members of a zip archive comes to. Let `i` be the first member that does
/// not open or has the wanted file name (the number of members, if there is none). If it opens, it
/// is what is found; else the search fails; and without such a member nothing is found.
pub proof fn law_zip_search_stops_at_the_first_member(
    listing: Seq<(Seq<char>, bool)>,
    target: Seq<char>,
    platform: Platform,
    i: int,
)
    requires
        0 <= i <= listing.len(),
        forall|j: int|
            0 <= j < i ==> (#[trigger] listing[j]).1 && file_name(
                encode_utf8(listing[j].0),
                platform,
            ) != Some(encode_utf8(target)),
    ensures
        i == listing.len() ==> zip_member(Some(listing), Some(target), platform) == Ok::<
            Option<nat>,
            Fault,
        >(None),
        i < listing.len() && !listing[i].1 ==> zip_member(Some(listing), Some(target), platform)
            == Err::<Option<nat>, _>(Fault::BrokenArchive),
        i < listing.len() && listing[i].1 && file_name(encode_utf8(listing[i].0), platform) == Some(
            encode_utf8(target),
        ) ==> zip_member(Some(listing), Some(target), platform) == Ok::<_, Fault>(Some(i as nat)),
        zip_member(Some(listing), None, platform) == Err::<Option<nat>, _>(
            Fault::MissingTargetFilename,
        ),
        zip_member(None, Some(target), platform) == Err::<Option<nat>, _>(Fault::BrokenArchive),
        zip_member(None, None, platform) == Err::<Option<nat>, _>(Fault::BrokenArchive),
{
    broadcast use vstd::utf8::encode_utf8_valid_utf8;

    let paths = zip_paths(listing);
    assert forall|j: int| 0 <= j < i implies (#[trigger] paths[j]) is Some && (platform
        == Platform::Windows ==> valid_utf8(paths[j]->0)) && file_name(paths[j]->0, platform)
        != Some(encode_utf8(target)) by {
        assert(listing[j].1);
    }
    law_search_stops_at_the_first_entry(paths, target, platform, i);
}

/// What is taken out of a zip archive: all that the first member with the wanted file name reads
/// as, if every member before it opens. A member that does not open, or is found and cannot be
/// read, and bytes that are no zip archive, make it fail.
pub proof fn law_zip_gives_the_whole_member(
    compressed: Seq<u8>,
    names: Seq<Seq<char>>,
    target: Seq<char>,
    platform: Platform,
    i: int,
)
    requires
        zip_file_names(compressed) == Some(names),
        0 <= i <= names.len(),
        forall|j: int|
            0 <= j < i ==> zip_opens(compressed, #[trigger] names[j]) && file_name(
                encode_utf8(names[j]),
                platform,
            ) != Some(encode_utf8(target)),
    ensures
        i == names.len() ==> zip_extract(compressed, Some(target), platform) == Ok::<
            Option<Seq<u8>>,
            Fault,
        >(None),
        i < names.len() && !zip_opens(compressed, names[i]) ==> zip_extract(
            compressed,
            Some(target),
            platform,
        ) == Err::<Option<Seq<u8>>, _>(Fault::BrokenArchive),
        i < names.len() && zip_opens(compressed, names[i]) && file_name(
            encode_utf8(names[i]),
            platform,
        ) == Some(encode_utf8(target)) ==> zip_extract(compressed, Some(target), platform)
            == match zip_contents(compressed, names[i]) {
            Some(contents) => Ok(Some(contents)),
            None => Err(Fault::BrokenArchive),
        },
        zip_extract(compressed, None, platform) == Err::<Option<Seq<u8>>, _>(
            Fault::MissingTargetFilename,
        ),
{
    let listing = zip_listing(compressed)->0;
    assert forall|j: int| 0 <= j < i implies (#[trigger] listing[j]).1 && file_name(
        encode_utf8(listing[j].0),
        platform,
    ) != Some(encode_utf8(target)) by {
        assert(zip_opens(compressed, names[j]));
    }
    law_zip_search_stops_at_the_first_member(listing, target, platform, i);
}

/// Nothing is taken out of bytes that are no zip archive.
pub proof fn law_broken_zip_gives_nothing(
    compressed: Seq<u8>,
    target: Option<Seq<char>>,
    platform: Platform,
)
    requires
        zip_file_names(compressed) is None,
    ensures
        zip_extract(compressed, target, platform) == Err::<Option<Seq<u8>>, _>(
            Fault::BrokenArchive,
        ),
{
}

/// What contracts say of the outcome of a search or an extraction is all that is in it.
pub proof fn law_archive_outcomes_keep_everything(index: usize, contents: Vec<u8>, fault: Fault)
    ensures
        search_outcome(Ok(Some(index))) == Ok::<_, Fault>(Some(index as nat)),
        search_outcome(Ok(None)) == Ok::<Option<nat>, Fault>(None),
        search_outcome(Err(fault)) == Err::<Option<nat>, _>(fault),
        contents_outcome(Ok(Some(contents))) == Ok::<_, Fault>(Some(contents@)),
        contents_outcome(Ok(None)) == Ok::<Option<Seq<u8>>, Fault>(None),
        contents_outcome(Err(fault)) == Err::<Option<Seq<u8>>, _>(fault),
{
}

proof fn lemma_first_stop(paths: Seq<Option<Seq<u8>>>, target: Seq<char>, platform: Platform)
    ensures
        ({
            let i = first_stop(paths, encode_utf8(target), platform);
            &&& i <= paths.len()
            &&& i < paths.len() ==> !is_passed_over(paths[i as int], target, platform)
            &&& forall|j: int| 0 <= j < i ==> is_passed_over(#[trigger] paths[j], target, platform)
        }),
    decreases paths.len(),
{
    if paths.len() > 0 && is_passed_over(paths[0], target, platform) {
        let rest = paths.drop_first();
        lemma_first_stop(rest, target, platform);
        assert forall|j: int|
            0 <= j < first_stop(paths, encode_utf8(target), platform) implies is_passed_over(
            #[trigger] paths[j],
            target,
            platform,
        ) by {
            if j > 0 {
                assert(is_passed_over(rest[j - 1], target, platform));
            }
        }
    }
}

} // verus!
