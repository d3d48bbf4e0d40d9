use amethyst_extra::asset_loader::{AssetLoader, AssetLoaderInternal};

const BASE: &str = "/srv/game/test/assets";

/// The files of the test asset tree.
fn asset_files() -> Vec<String> {
    vec![
        format!("{}/main/config/unique", BASE),
        format!("{}/main/config/ov1", BASE),
        format!("{}/main/config/ovall", BASE),
        format!("{}/mod1/config/uniqueother", BASE),
        format!("{}/mod1/config/ov1", BASE),
        format!("{}/mod1/config/ovall", BASE),
        format!("{}/mod2/config/ovall", BASE),
    ]
}

/// The entries of the base directory, in the order given.
fn listing(packs: &[&str]) -> Vec<String> {
    packs.iter().map(|p| format!("{}/{}", BASE, p)).collect()
}

fn load_asset_loader() -> AssetLoader {
    let mut loader = AssetLoader::new(BASE, "main");
    loader.get_asset_packs(Some(&listing(&["main", "mod1", "mod2"])));
    loader
}

#[test]
fn path_sanitisation() {
    let mut loader = AssetLoader::new(&format!("{}/", BASE), "/base/");
    assert_eq!(loader.base_path(), BASE);
    let packs = loader.get_asset_packs(Some(&listing(&["base"]))).clone();
    assert_eq!(packs, vec!["base".to_string()]);
    let files = vec![format!("{}/base/config/unique", BASE)];
    assert_eq!(
        loader.resolve_path("config/unique", &files),
        Some(format!("{}/base/config/unique", BASE))
    );
}

#[test]
fn asset_loader_resolve_unique_other() {
    let asset_loader = load_asset_loader();
    assert_eq!(
        asset_loader.resolve_path("config/uniqueother", &asset_files()),
        Some(format!("{}/mod1/config/uniqueother", BASE).to_string())
    )
}

#[test]
fn asset_loader_resolve_path_override_single() {
    let asset_loader = load_asset_loader();
    assert_eq!(
        asset_loader.resolve_path("config/ov1", &asset_files()),
        Some(format!("{}/mod1/config/ov1", BASE).to_string())
    )
}

#[test]
fn asset_loader_resolve_path_override_all() {
    let asset_loader = load_asset_loader();
    assert_eq!(
        asset_loader.resolve_path("config/ovall", &asset_files()),
        Some(format!("{}/mod2/config/ovall", BASE).to_string())
    )
}

#[test]
fn default_pack_serves_what_only_it_holds() {
    let asset_loader = load_asset_loader();
    assert_eq!(
        asset_loader.resolve_path("config/unique", &asset_files()),
        Some(format!("{}/main/config/unique", BASE))
    );
}

#[test]
fn later_override_wins_by_discovery_order() {
    let mut forward = AssetLoader::new(BASE, "main");
    forward.get_asset_packs(Some(&listing(&["mod1", "main", "mod2"])));
    assert_eq!(
        forward.resolve_path("config/ovall", &asset_files()),
        Some(format!("{}/mod2/config/ovall", BASE))
    );
    let mut backward = AssetLoader::new(BASE, "main");
    backward.get_asset_packs(Some(&listing(&["mod2", "mod1", "main"])));
    assert_eq!(
        backward.resolve_path("config/ovall", &asset_files()),
        Some(format!("{}/mod1/config/ovall", BASE))
    );
}

#[test]
fn missing_asset_is_not_found() {
    let asset_loader = load_asset_loader();
    assert_eq!(asset_loader.resolve_path("config/absent", &asset_files()), None);
    assert_eq!(
        asset_loader.candidate_paths("config/absent"),
        vec![
            format!("{}/main/config/absent", BASE),
            format!("{}/mod1/config/absent", BASE),
            format!("{}/mod2/config/absent", BASE),
        ]
    );
}

#[test]
fn nothing_resolves_against_no_files() {
    let asset_loader = load_asset_loader();
    assert_eq!(asset_loader.resolve_path("config/unique", &Vec::new()), None);
}

#[test]
fn undiscovered_loader_uses_default_pack_only() {
    let asset_loader = AssetLoader::new(BASE, "mod1");
    assert!(asset_loader.needs_discovery());
    assert_eq!(
        asset_loader.resolve_path("config/ovall", &asset_files()),
        Some(format!("{}/mod1/config/ovall", BASE))
    );
    assert_eq!(
        asset_loader.candidate_paths("x"),
        vec![format!("{}/mod1/x", BASE)]
    );
}

#[test]
fn discovery_is_kept_once_made() {
    let mut loader = AssetLoader::new(BASE, "main");
    let first = loader.get_asset_packs(Some(&listing(&["main", "mod1"]))).clone();
    assert_eq!(first, vec!["main".to_string(), "mod1".to_string()]);
    let second = loader.get_asset_packs(Some(&listing(&["mod2"]))).clone();
    assert_eq!(first, second);
    let third = loader.get_asset_packs(None).clone();
    assert_eq!(first, third);
    assert!(!loader.needs_discovery());
}

#[test]
fn unreadable_base_leaves_packs_to_discover() {
    let mut loader = AssetLoader::new(BASE, "main");
    assert!(loader.get_asset_packs(None).is_empty());
    assert!(loader.needs_discovery());
    let packs = loader.get_asset_packs(Some(&listing(&["mod2"]))).clone();
    assert_eq!(packs, vec!["mod2".to_string()]);
}

#[test]
fn pack_names_between_slashes_resolve_alike() {
    let mut plain = AssetLoader::new(BASE, "main");
    let mut wrapped = AssetLoader::new(BASE, "/main/");
    let entries = listing(&["main", "mod1"]);
    plain.get_asset_packs(Some(&entries));
    wrapped.get_asset_packs(Some(&entries));
    for asset in ["config/unique", "config/ov1", "config/uniqueother", "config/none"] {
        assert_eq!(
            plain.resolve_path(asset, &asset_files()),
            wrapped.resolve_path(asset, &asset_files())
        );
    }
    assert_eq!(
        wrapped.resolve_path("config/unique", &asset_files()),
        Some(format!("{}/main/config/unique", BASE))
    );
}

#[test]
fn pack_names_are_normalized() {
    let mut loader = AssetLoader::new("C:/games/", "?\\main\\");
    assert_eq!(loader.base_path(), "C:/games");
    let entries = vec![
        "C:/games\\mod3".to_string(),
        "C:/games/?\\mod4/".to_string(),
        "elsewhere/mod5".to_string(),
    ];
    let packs = loader.get_asset_packs(Some(&entries)).clone();
    assert_eq!(
        packs,
        vec!["mod3".to_string(), "mod4".to_string(), "elsewhere/mod5".to_string()]
    );
    let files = vec!["C:/games/main/a.png".to_string()];
    assert_eq!(loader.resolve_path("a.png", &files), Some("C:/games/main/a.png".to_string()));
}

#[test]
fn base_path_without_trailing_slash_is_kept() {
    let loader = AssetLoader::new("assets", "main");
    assert_eq!(loader.base_path(), "assets");
    let empty = AssetLoader::new("", "main");
    assert_eq!(empty.base_path(), "");
}

#[test]
fn override_pack_equal_to_default_is_not_an_override() {
    let mut loader = AssetLoader::new(BASE, "mod1");
    loader.get_asset_packs(Some(&listing(&["mod1", "main"])));
    assert_eq!(
        loader.resolve_path("config/ov1", &asset_files()),
        Some(format!("{}/main/config/ov1", BASE))
    );
    assert_eq!(
        loader.candidate_paths("config/ov1"),
        vec![format!("{}/mod1/config/ov1", BASE), format!("{}/main/config/ov1", BASE)]
    );
}

#[test]
fn load_caches_the_handle_of_the_resolved_path() {
    let loader = load_asset_loader();
    let mut ali: AssetLoaderInternal<String> = AssetLoaderInternal::new();
    assert_eq!(AssetLoader::get_asset_handle("config/ov1", &ali), None);
    let first = loader.load("config/ov1", &asset_files(), &mut ali, |p| format!("handle:{}", p));
    assert_eq!(first, Some(format!("handle:{}/mod1/config/ov1", BASE)));
    let again = loader.load("config/ov1", &asset_files(), &mut ali, |_p| "other".to_string());
    assert_eq!(again, first);
    assert_eq!(AssetLoader::get_asset_handle("config/ov1", &ali), first);
    AssetLoader::unload("config/ov1", &mut ali);
    assert_eq!(AssetLoader::get_asset_handle("config/ov1", &ali), None);
}

#[test]
fn load_of_a_missing_asset_caches_nothing() {
    let loader = load_asset_loader();
    let mut ali: AssetLoaderInternal<u32> = AssetLoaderInternal::new();
    assert_eq!(loader.load("config/absent", &asset_files(), &mut ali, |_p| 7), None);
    assert_eq!(AssetLoader::get_asset_handle("config/absent", &ali), None);
}

#[test]
fn default_cache_is_empty() {
    let ali: AssetLoaderInternal<u8> = AssetLoaderInternal::default();
    assert_eq!(AssetLoader::get_asset_handle("config/ov1", &ali), None);
}
