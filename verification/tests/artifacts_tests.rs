use contract_registry::artifacts::ArtifactEntry;
use contract_registry::artifacts::ProviderError;
use contract_registry::artifacts::finish_assembly;
use contract_registry::artifacts::into_result;
use contract_registry::artifacts::lookup_url;
use contract_registry::artifacts::manifest_from_items;
use contract_registry::artifacts::plan_fetches;
use contract_registry::artifacts::trim;
use contract_registry::artifacts::webhook_response;
use contract_registry::signature::sign_body;
use contract_registry::verify_signature;

fn item(path: &str, url: &str) -> (Option<String>, Option<String>) {
    (Some(path.to_string()), Some(url.to_string()))
}

fn full_manifest() -> Vec<ArtifactEntry> {
    let items = vec![
        item("git/repository.txt", "https://artifacts.example/repository"),
        item("git/remote.txt", "https://artifacts.example/remote"),
        item("git/branch.txt", "https://artifacts.example/branch"),
        item("git/commit.txt", "https://artifacts.example/commit"),
        item("out/out.wasm", "https://artifacts.example/out.wasm"),
    ];
    manifest_from_items(Some(items)).expect("well-shaped manifest")
}

#[test]
fn manifest_items_missing_fields_are_schema_errors() {
    // An item lacking its path or url is not shaped as expected: the
    // whole manifest is refused, permanently, and nothing of it is kept.
    let nameless = vec![
        item("a", "https://artifacts.example/a"),
        (None, Some("https://artifacts.example/nameless".to_string())),
    ];
    assert_eq!(manifest_from_items(Some(nameless)).unwrap_err(), ProviderError::SchemaMismatch);

    let urlless = vec![(Some("urlless".to_string()), None)];
    assert_eq!(manifest_from_items(Some(urlless)).unwrap_err(), ProviderError::SchemaMismatch);

    let empty_item = vec![item("a", "https://artifacts.example/a"), (None, None)];
    assert_eq!(manifest_from_items(Some(empty_item)).unwrap_err(), ProviderError::SchemaMismatch);
}

#[test]
fn manifest_keeps_complete_items_in_order() {
    let items = vec![
        item("a", "https://artifacts.example/a"),
        item("b", "https://artifacts.example/b"),
    ];
    let entries = manifest_from_items(Some(items)).expect("well-shaped manifest");
    assert_eq!(entries.len(), 2);
    assert_eq!(entries[0].path, "a");
    assert_eq!(entries[0].url, "https://artifacts.example/a");
    assert_eq!(entries[1].path, "b");
    assert_eq!(entries[1].url, "https://artifacts.example/b");
}

#[test]
fn manifest_without_items_is_a_schema_mismatch() {
    assert_eq!(manifest_from_items(None).unwrap_err(), ProviderError::SchemaMismatch);
}

#[test]
fn lookup_prefers_the_last_duplicate() {
    let entries = manifest_from_items(Some(vec![
        item("p", "https://artifacts.example/first"),
        item("p", "https://artifacts.example/second"),
    ]))
    .unwrap();
    assert_eq!(lookup_url(&entries, "p"), Some("https://artifacts.example/second".to_string()));
    assert_eq!(lookup_url(&entries, "q"), None);
}

#[test]
fn plan_requires_every_artifact() {
    let plan = plan_fetches(&full_manifest()).expect("complete manifest");
    assert_eq!(plan.repository_url, "https://artifacts.example/repository");
    assert_eq!(plan.code_url, "https://artifacts.example/out.wasm");

    let mut incomplete = full_manifest();
    incomplete.retain(|e| e.path != "git/branch.txt");
    assert_eq!(plan_fetches(&incomplete).unwrap_err(), ProviderError::MissingArtifact);
}

#[test]
fn trim_strips_surrounding_whitespace() {
    assert_eq!(trim("  main\n"), "main");
    assert_eq!(trim("\t\r\n"), "");
    assert_eq!(trim("no-op"), "no-op");
    assert_eq!(trim("inner space kept \n"), "inner space kept");
}

#[test]
fn assembled_webhook_scenario() {
    // The webhook body for job 42, signed with the shared secret; the
    // assembler fetches the manifest's files, hashes the binary bytes
    // [0x00, 0x01], and the HTTP response body is the base-58 rendering
    // of that digest.
    let secret = b"webhook-secret";
    let body = b"{\"job\":{\"name\":\"build\",\"status\":\"success\",\"number\":42}}";
    let signature = sign_body(secret, body);
    assert!(verify_signature(secret, &signature, body));

    let plan = plan_fetches(&full_manifest()).expect("complete manifest");

    let meta = finish_assembly(
        "https://github.com/NEAR-Edu/stats.gallery-dapp.git\n",
        " origin\n",
        " main\n",
        "c0ffee\n",
        plan.code_url,
        &[0x00, 0x01],
    );
    assert_eq!(meta.repo, "https://github.com/NEAR-Edu/stats.gallery-dapp.git");
    assert_eq!(meta.remote, "origin");
    assert_eq!(meta.branch, "main");
    assert_eq!(meta.commit, "c0ffee");
    assert_eq!(meta.code_url, "https://artifacts.example/out.wasm");

    assert_eq!(
        webhook_response(&meta),
        "D7x2y97woFHmvNQCfCNBj3xtYcuJ4xw78MvaeiQndmvH"
    );

    let result = into_result(meta, 42);
    assert_eq!(result.request_id, 42);
    assert_eq!(result.repository, "https://github.com/NEAR-Edu/stats.gallery-dapp.git");
    assert_eq!(
        result.code_hash.to_base58(),
        "D7x2y97woFHmvNQCfCNBj3xtYcuJ4xw78MvaeiQndmvH"
    );
}
