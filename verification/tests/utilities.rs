//! Tests of the verified file-utility logic: image types, path
//! construction, file lookup and lock-file cleanup planning.

use maya::files::clear_lock_files;
use maya::files::create_output_path;
use maya::files::find_file;
use maya::files::get_out_dir;
use maya::files::is_git_path;
use maya::files::select_optimize_args;
use maya::files::git_next_action;
use maya::files::zip_file_name;
use maya::files::DirTree;
use maya::files::GitAction;
use maya::files::GitStep;
use maya::files::ImageType;

fn s(x: &str) -> String {
    x.to_string()
}

#[test]
fn test_clear_lock_files() {
    let temp_dir = DirTree {
        name: s("project"),
        files: vec![s("package-lock.json")],
        subdirs: vec![],
    };
    assert!(temp_dir.files.contains(&s("package-lock.json")));
    let removed = clear_lock_files(&temp_dir);
    let count = removed.len();
    assert_eq!(count, 1);
    assert!(removed.contains(&s("project/package-lock.json")));
}

#[test]
fn lock_files_are_planned_in_fixed_order() {
    let tree = DirTree {
        name: s("root"),
        files: vec![s("yarn.lock"), s("package-lock.json"), s("readme.md")],
        subdirs: vec![],
    };
    let removed = clear_lock_files(&tree);
    assert_eq!(removed, vec![s("root/package-lock.json"), s("root/yarn.lock")]);
}

#[test]
fn node_modules_subtrees_are_skipped() {
    let tree = DirTree {
        name: s("root"),
        files: vec![],
        subdirs: vec![
            DirTree {
                name: s("node_modules"),
                files: vec![s("package-lock.json")],
                subdirs: vec![],
            },
            DirTree {
                name: s("pkg"),
                files: vec![s("pnpm-lock.yaml")],
                subdirs: vec![],
            },
        ],
    };
    let removed = clear_lock_files(&tree);
    assert_eq!(removed, vec![s("root/pkg/pnpm-lock.yaml")]);
}

#[test]
fn image_type_parsing_is_case_insensitive() {
    assert_eq!(ImageType::from_str("png").unwrap(), ImageType::Png);
    assert_eq!(ImageType::from_str("PNG").unwrap(), ImageType::Png);
    assert_eq!(ImageType::from_str("jpg").unwrap(), ImageType::Jpg);
    assert_eq!(ImageType::from_str("Jpeg").unwrap(), ImageType::Jpeg);
    assert_eq!(ImageType::from_str("all").unwrap(), ImageType::All);
}

#[test]
fn unsupported_image_type_is_rejected_with_input() {
    let r = ImageType::from_str("gif");
    assert!(matches!(r, Err(_)));
    match r {
        Err(e) => assert_eq!(e.input, s("gif")),
        Ok(_) => unreachable!(),
    }
}

#[test]
fn supported_extensions_per_kind() {
    assert!(ImageType::Png.is_supported_extension("png"));
    assert!(ImageType::Png.is_supported_extension("PNG"));
    assert!(!ImageType::Png.is_supported_extension("jpg"));
    assert!(ImageType::All.is_supported_extension("JPG"));
    assert!(ImageType::All.is_supported_extension("jpeg"));
    assert!(!ImageType::All.is_supported_extension("gif"));
}

#[test]
fn output_path_gains_suffix_before_extension() {
    assert_eq!(create_output_path("dir/photo.png", "_c"), s("dir/photo_c.png"));
    assert_eq!(create_output_path("a.tar.gz", "_z"), s("a.tar_z.gz"));
}

#[test]
fn output_path_without_extension_still_gains_dot() {
    assert_eq!(create_output_path("noext", "_c"), s("noext_c."));
    assert_eq!(create_output_path("dir/.hidden", "_c"), s("dir/.hidden_c."));
}

#[test]
fn find_file_joins_only_present_entries() {
    let entries = vec![s("vite.config.js"), s("index.html")];
    assert_eq!(
        find_file(&entries, "/work", "vite.config.js"),
        Some(s("/work/vite.config.js"))
    );
    assert_eq!(find_file(&entries, "/work", "vite.config.ts"), None);
}

#[test]
fn git_paths_are_recognized() {
    assert!(is_git_path("repo/.git/config"));
    assert!(is_git_path(".git/config"));
    assert!(!is_git_path("src/main.rs"));
    assert!(!is_git_path(".github/workflows.yml"));
}

#[test]
fn git_sequence_policy() {
    assert_eq!(git_next_action(GitStep::Add, true), GitAction::Run(GitStep::Commit));
    assert_eq!(git_next_action(GitStep::Add, false), GitAction::Abort(GitStep::Add));
    assert_eq!(git_next_action(GitStep::Commit, true), GitAction::Run(GitStep::Push));
    assert_eq!(git_next_action(GitStep::Commit, false), GitAction::WarnThenRun(GitStep::Push));
    assert_eq!(git_next_action(GitStep::Push, true), GitAction::Finished);
    assert_eq!(git_next_action(GitStep::Push, false), GitAction::Abort(GitStep::Push));
}

#[test]
fn zip_name_appends_extension() {
    assert_eq!(zip_file_name("dist"), s("dist.zip"));
}

#[test]
fn playlist_paths_derive_from_the_input_file() {
    let (dir, playlist) = maya::files::playlist_output_paths("videos/intro.mp4");
    assert_eq!(dir, s("videos/intro"));
    assert_eq!(playlist, s("videos/intro/index.m3u8"));
}

#[test]
fn out_dir_is_read_from_configuration_text() {
    assert_eq!(
        get_out_dir("export default { build: { outDir: 'build-out' } }"),
        Some(s("build-out"))
    );
    assert_eq!(get_out_dir("outDir: \"dist2\","), Some(s("dist2")));
    assert_eq!(get_out_dir("outDir = web"), Some(s("web")));
    assert_eq!(get_out_dir("export default {}"), None);
    assert_eq!(get_out_dir("outDir: ''"), None);
}

#[test]
fn optimize_arguments_are_selected() {
    let (new_file, kind) = select_optimize_args(&vec![s("n"), s("png")]);
    assert!(new_file);
    assert_eq!(kind, s("png"));
    let (new_file2, kind2) = select_optimize_args(&vec![s("jpg")]);
    assert!(!new_file2);
    assert_eq!(kind2, s("jpg"));
    let (new_file3, kind3) = select_optimize_args(&vec![s("n")]);
    assert!(new_file3);
    assert_eq!(kind3, s("all"));
}
