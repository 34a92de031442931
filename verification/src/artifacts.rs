//! Artifact manifests and the assembly of verification results.
//!
//! For a finished CI job the provider reports a manifest mapping
//! artifact paths to fetch URLs. Assembly plans one fetch for each of
//! four conventional metadata files and one for the build output, trims
//! the four text bodies, hashes the exact binary bytes, and combines
//! everything into the metadata of one verification. The fetches
//! themselves are the caller's: this module only decides what to fetch
//! and what the fetched bodies mean.

use vstd::prelude::*;

use crate::code_hash::CodeHash;
use crate::code_hash::base58_of;
use crate::code_hash::sha256_of;
use crate::verification::VerificationResult;

verus! {

/// Why assembly failed; none of these is retried here — retry policy
/// belongs to the caller.
#[derive(Clone, Copy, Debug, PartialEq, Eq, Structural)]
pub enum ProviderError {
    /// A network failure or timeout while talking to the provider.
    TransportError,
    /// The provider's response was not shaped as expected; permanent.
    SchemaMismatch,
    /// The manifest lacks a required artifact path; permanent.
    MissingArtifact,
}

/// One entry of a CI job's artifact manifest: a path and the URL it can
/// be fetched from.
#[derive(Debug)]
pub struct ArtifactEntry {
    pub path: String,
    pub url: String,
}

/// Whether every raw `(path, url)` item carries both of its fields; an
/// item missing either is a schema mismatch, not something to pass over.
pub open spec fn items_complete(items: Seq<(Option<String>, Option<String>)>) -> bool {
    forall|i: int|
        0 <= i < items.len() ==> (#[trigger] items[i]).0 is Some && items[i].1 is Some
}

/// The manifest entries of complete raw items, in order.
pub open spec fn entries_of(items: Seq<(Option<String>, Option<String>)>) -> Seq<ArtifactEntry> {
    items.map_values(
        |item: (Option<String>, Option<String>)|
            ArtifactEntry { path: item.0.unwrap(), url: item.1.unwrap() },
    )
}

/// Turns the raw items of a parsed manifest into entries. A response
/// that was not an object with an item list (`None`), and any item
/// lacking its path or url, is a schema mismatch: permanent, and
/// nothing of the manifest is kept.
pub fn manifest_from_items(items: Option<Vec<(Option<String>, Option<String>)>>) -> (r: Result<
    Vec<ArtifactEntry>,
    ProviderError,
>)
    ensures
        r is Ok <==> (items matches Some(list) && items_complete(list@)),
        match items {
            None => r == Err::<Vec<ArtifactEntry>, ProviderError>(ProviderError::SchemaMismatch),
            Some(list) => {
                &&& r matches Ok(es) ==> es@ == entries_of(list@)
                &&& r matches Err(e) ==> e == ProviderError::SchemaMismatch
            },
        },
{
    let list = match items {
        None => {
            return Err(ProviderError::SchemaMismatch);
        },
        Some(list) => list,
    };
    let ghost orig = list@;
    let mut rest = list;
    let mut out: Vec<ArtifactEntry> = Vec::new();
    let ghost mut i: int = 0;
    proof {
        assert(out@ =~= entries_of(orig.subrange(0, 0)));
    }
    while rest.len() > 0
        invariant
            items matches Some(l) && l@ == orig,
            0 <= i <= orig.len(),
            rest@ == orig.subrange(i, orig.len() as int),
            items_complete(orig.subrange(0, i)),
            out@ == entries_of(orig.subrange(0, i)),
        decreases rest@.len(),
    {
        let item = rest.remove(0);
        proof {
            assert(item == orig[i]);
            assert(rest@ =~= orig.subrange(i + 1, orig.len() as int));
        }
        match item {
            (Some(p), Some(u)) => {
                out.push(ArtifactEntry { path: p, url: u });
                proof {
                    let prefix = orig.subrange(0, i);
                    let grown = orig.subrange(0, i + 1);
                    assert forall|j: int|
                        0 <= j < grown.len() implies (#[trigger] grown[j]).0 is Some
                        && grown[j].1 is Some by {
                        if j < i {
                            assert(grown[j] == prefix[j]);
                        } else {
                            assert(grown[j] == item);
                        }
                    }
                    assert(out@ =~= entries_of(grown));
                }
            },
            _ => {
                proof {
                    assert(!(orig[i].0 is Some && orig[i].1 is Some));
                }
                return Err(ProviderError::SchemaMismatch);
            },
        }
        proof {
            i = i + 1;
        }
    }
    proof {
        assert(orig.subrange(0, orig.len() as int) =~= orig);
    }
    Ok(out)
}

/// The URL the manifest maps `path` to; with a duplicated path the last
/// entry wins, as collecting into a keyed map would have it.
pub open spec fn url_for(entries: Seq<ArtifactEntry>, path: Seq<char>) -> Option<Seq<char>>
    decreases entries.len(),
{
    if entries.len() == 0 {
        None
    } else if entries.last().path@ == path {
        Some(entries.last().url@)
    } else {
        url_for(entries.drop_last(), path)
    }
}

/// Character-for-character string equality.
pub fn str_eq(a: &str, b: &str) -> (r: bool)
    ensures
        r == (a@ == b@),
{
    let n = a.unicode_len();
    if n != b.unicode_len() {
        assert(a@ !~= b@);
        return false;
    }
    let mut i: usize = 0;
    while i < n
        invariant
            i <= n,
            n == a@.len(),
            n == b@.len(),
            forall|j: int| 0 <= j < i ==> a@[j] == b@[j],
        decreases n - i,
    {
        if a.get_char(i) != b.get_char(i) {
            return false;
        }
        i += 1;
    }
    assert(a@ =~= b@);
    true
}

/// Finds the URL for `path`, the last matching entry winning.
pub fn lookup_url(entries: &Vec<ArtifactEntry>, path: &str) -> (r: Option<String>)
    ensures
        match r {
            Some(u) => url_for(entries@, path@) == Some(u@),
            None => url_for(entries@, path@) is None,
        },
{
    let n = entries.len();
    let mut k: usize = n;
    proof {
        assert(entries@.subrange(0, n as int) =~= entries@);
    }
    while k > 0
        invariant
            k <= n,
            n == entries@.len(),
            url_for(entries@, path@) == url_for(entries@.subrange(0, k as int), path@),
        decreases k,
    {
        let entry = &entries[k - 1];
        proof {
            let prefix = entries@.subrange(0, k as int);
            assert(prefix.last() == entries@[k - 1]);
            assert(prefix.drop_last() =~= entries@.subrange(0, k - 1));
        }
        if str_eq(entry.path.as_str(), path) {
            let found = entry.url.clone();
            return Some(found);
        }
        k -= 1;
    }
    proof {
        assert(entries@.subrange(0, 0) =~= Seq::<ArtifactEntry>::empty());
    }
    None
}

/// What one job's assembly will fetch: the four conventional metadata
/// files and the compiled binary.
#[derive(Debug)]
pub struct FetchPlan {
    pub repository_url: String,
    pub remote_url: String,
    pub branch_url: String,
    pub commit_url: String,
    pub code_url: String,
}

/// Whether the manifest carries every artifact the assembly needs.
pub open spec fn plan_complete(entries: Seq<ArtifactEntry>) -> bool {
    &&& url_for(entries, "git/repository.txt"@) is Some
    &&& url_for(entries, "git/remote.txt"@) is Some
    &&& url_for(entries, "git/branch.txt"@) is Some
    &&& url_for(entries, "git/commit.txt"@) is Some
    &&& url_for(entries, "out/out.wasm"@) is Some
}

/// Plans the fetches for one job, before any request is issued: each of
/// the required paths must be in the manifest, else the job fails with
/// a missing-artifact error and nothing is fetched.
pub fn plan_fetches(entries: &Vec<ArtifactEntry>) -> (r: Result<FetchPlan, ProviderError>)
    ensures
        r is Ok <==> plan_complete(entries@),
        r matches Ok(plan) ==> {
            &&& Some(plan.repository_url@) == url_for(entries@, "git/repository.txt"@)
            &&& Some(plan.remote_url@) == url_for(entries@, "git/remote.txt"@)
            &&& Some(plan.branch_url@) == url_for(entries@, "git/branch.txt"@)
            &&& Some(plan.commit_url@) == url_for(entries@, "git/commit.txt"@)
            &&& Some(plan.code_url@) == url_for(entries@, "out/out.wasm"@)
        },
        r matches Err(e) ==> e == ProviderError::MissingArtifact,
{
    let repository_url = match lookup_url(entries, "git/repository.txt") {
        Some(u) => u,
        None => {
            return Err(ProviderError::MissingArtifact);
        },
    };
    let remote_url = match lookup_url(entries, "git/remote.txt") {
        Some(u) => u,
        None => {
            return Err(ProviderError::MissingArtifact);
        },
    };
    let branch_url = match lookup_url(entries, "git/branch.txt") {
        Some(u) => u,
        None => {
            return Err(ProviderError::MissingArtifact);
        },
    };
    let commit_url = match lookup_url(entries, "git/commit.txt") {
        Some(u) => u,
        None => {
            return Err(ProviderError::MissingArtifact);
        },
    };
    let code_url = match lookup_url(entries, "out/out.wasm") {
        Some(u) => u,
        None => {
            return Err(ProviderError::MissingArtifact);
        },
    };
    Ok(FetchPlan { repository_url, remote_url, branch_url, commit_url, code_url })
}

/// The Unicode white-space characters, as `str::trim` removes them.
pub open spec fn is_space(c: char) -> bool {
    let u = c as u32;
    ||| u == 0x20
    ||| (0x9 <= u && u <= 0xD)
    ||| u == 0x85
    ||| u == 0xA0
    ||| u == 0x1680
    ||| (0x2000 <= u && u <= 0x200A)
    ||| u == 0x2028
    ||| u == 0x2029
    ||| u == 0x202F
    ||| u == 0x205F
    ||| u == 0x3000
}

pub open spec fn trim_front(s: Seq<char>) -> Seq<char>
    decreases s.len(),
{
    if s.len() > 0 && is_space(s.first()) {
        trim_front(s.drop_first())
    } else {
        s
    }
}

pub open spec fn trim_back(s: Seq<char>) -> Seq<char>
    decreases s.len(),
{
    if s.len() > 0 && is_space(s.last()) {
        trim_back(s.drop_last())
    } else {
        s
    }
}

/// `s` without its leading and trailing white space.
pub open spec fn trim_spec(s: Seq<char>) -> Seq<char> {
    trim_back(trim_front(s))
}

fn is_space_char(c: char) -> (r: bool)
    ensures
        r == is_space(c),
{
    let u = c as u32;
    u == 0x20 || (0x9 <= u && u <= 0xD) || u == 0x85 || u == 0xA0 || u == 0x1680 || (0x2000 <= u
        && u <= 0x200A) || u == 0x2028 || u == 0x2029 || u == 0x202F || u == 0x205F || u == 0x3000
}

proof fn lemma_trim_front_is(s: Seq<char>, i: int)
    requires
        0 <= i <= s.len(),
        forall|k: int| 0 <= k < i ==> is_space(#[trigger] s[k]),
        i < s.len() ==> !is_space(s[i]),
    ensures
        trim_front(s) == s.subrange(i, s.len() as int),
    decreases s.len(),
{
    if i == 0 {
        assert(s.subrange(0, s.len() as int) =~= s);
    } else {
        assert(is_space(s.first()));
        assert forall|k: int| 0 <= k < i - 1 implies is_space(#[trigger] s.drop_first()[k]) by {
            assert(s.drop_first()[k] == s[k + 1]);
        }
        lemma_trim_front_is(s.drop_first(), i - 1);
        assert(s.drop_first().subrange(i - 1, s.drop_first().len() as int) =~= s.subrange(
            i,
            s.len() as int,
        ));
    }
}

proof fn lemma_trim_back_is(s: Seq<char>, j: int)
    requires
        0 <= j <= s.len(),
        forall|k: int| j <= k < s.len() ==> is_space(#[trigger] s[k]),
        j > 0 ==> !is_space(s[j - 1]),
    ensures
        trim_back(s) == s.subrange(0, j),
    decreases s.len(),
{
    if j == s.len() {
        assert(s.subrange(0, s.len() as int) =~= s);
    } else {
        assert(is_space(s.last()));
        assert forall|k: int| j <= k < s.drop_last().len() implies is_space(
            #[trigger] s.drop_last()[k],
        ) by {
            assert(s.drop_last()[k] == s[k]);
        }
        lemma_trim_back_is(s.drop_last(), j);
        assert(s.drop_last().subrange(0, j) =~= s.subrange(0, j));
    }
}

/// `s` without surrounding white space, as `str::trim` would leave it.
pub fn trim(s: &str) -> (r: String)
    ensures
        r@ == trim_spec(s@),
{
    let n = s.unicode_len();
    let mut i: usize = 0;
    while i < n && is_space_char(s.get_char(i))
        invariant
            i <= n,
            n == s@.len(),
            forall|k: int| 0 <= k < i ==> is_space(#[trigger] s@[k]),
        decreases n - i,
    {
        i += 1;
    }
    proof {
        lemma_trim_front_is(s@, i as int);
    }
    if i == n {
        proof {
            assert(trim_front(s@) =~= Seq::<char>::empty());
        }
        return String::new();
    }
    let mut j: usize = n;
    while j > i && is_space_char(s.get_char(j - 1))
        invariant
            i <= j <= n,
            n == s@.len(),
            forall|k: int| j <= k < n ==> is_space(#[trigger] s@[k]),
        decreases j,
    {
        j -= 1;
    }
    let sub = s.substring_char(i, j);
    proof {
        let t = s@.subrange(i as int, n as int);
        assert forall|k: int| j - i <= k < t.len() implies is_space(#[trigger] t[k]) by {
            assert(t[k] == s@[k + i]);
        }
        if j > i {
            assert(t[j - i - 1] == s@[j - 1]);
        }
        lemma_trim_back_is(t, j - i as int);
        assert(sub@ =~= t.subrange(0, j - i as int));
    }
    sub.to_owned()
}

/// The metadata of one assembled verification: the four trimmed text
/// artifacts, the URL the binary came from, and the digest of its exact
/// bytes.
#[derive(Debug)]
pub struct VerificationMetadata {
    pub repo: String,
    pub remote: String,
    pub branch: String,
    pub commit: String,
    pub code_url: String,
    pub code_hash: CodeHash,
}

/// Combines the four fetched text bodies, the binary's source URL and
/// the binary's bytes into the metadata of one verification. The digest
/// is computed over exactly the bytes given, never a re-encoding.
pub fn finish_assembly(
    repository: &str,
    remote: &str,
    branch: &str,
    commit: &str,
    code_url: String,
    code: &[u8],
) -> (r: VerificationMetadata)
    ensures
        r.repo@ == trim_spec(repository@),
        r.remote@ == trim_spec(remote@),
        r.branch@ == trim_spec(branch@),
        r.commit@ == trim_spec(commit@),
        r.code_url@ == code_url@,
        r.code_hash@ == sha256_of(code@),
{
    VerificationMetadata {
        repo: trim(repository),
        remote: trim(remote),
        branch: trim(branch),
        commit: trim(commit),
        code_url,
        code_hash: CodeHash::hash_bytes(code),
    }
}

/// Attaches the request id — which the caller derives from the webhook
/// payload, not this module — to assembled metadata, giving the result
/// that is reported on chain.
pub fn into_result(meta: VerificationMetadata, request_id: u64) -> (r: VerificationResult)
    ensures
        r.code_hash@ == meta.code_hash@,
        r.code_url@ == meta.code_url@,
        r.repository@ == meta.repo@,
        r.remote@ == meta.remote@,
        r.branch@ == meta.branch@,
        r.commit@ == meta.commit@,
        r.request_id == request_id,
{
    VerificationResult {
        code_hash: meta.code_hash,
        code_url: meta.code_url,
        repository: meta.repo,
        remote: meta.remote,
        branch: meta.branch,
        commit: meta.commit,
        request_id,
    }
}

/// The plain-text webhook response: the base-58 rendering of the
/// assembled code hash.
pub fn webhook_response(meta: &VerificationMetadata) -> (r: String)
    ensures
        r@ == base58_of(meta.code_hash@),
{
    meta.code_hash.to_base58()
}

} // verus!
