use mcp_scanner::analyzer::{
    detect_technology, is_ignored_dir, is_terraform_file, Analysis, Analyzer, NamingConvention,
    NamingVotes, RepoEntry, TerraformResource, Technology,
};
use mcp_scanner::terraform::find_resource_headers;

/// The entries a walk of a root directory named "repo" yields for files at
/// `rel_path`: each directory below the root once, before its contents,
/// then the file; the contents are kept for `.tf` files as a walk would.
fn entries(files: &[(&str, &str)]) -> Vec<RepoEntry> {
    let mut out: Vec<RepoEntry> = Vec::new();
    let mut seen: Vec<String> = Vec::new();
    for (rel_path, content) in files {
        let parts: Vec<&str> = rel_path.split('/').collect();
        for depth in 1..parts.len() {
            let dir_path = parts[..depth].join("/");
            if !seen.contains(&dir_path) {
                seen.push(dir_path.clone());
                let mut dir_names = vec!["repo".to_string()];
                dir_names.extend(parts[..depth - 1].iter().map(|p| p.to_string()));
                out.push(RepoEntry {
                    dir_names,
                    name: parts[depth - 1].to_string(),
                    is_dir: true,
                    rel_path: dir_path,
                    tf_content: None,
                });
            }
        }
        let name = parts[parts.len() - 1].to_string();
        let mut dir_names = vec!["repo".to_string()];
        dir_names.extend(parts[..parts.len() - 1].iter().map(|p| p.to_string()));
        let tf_content = if name.ends_with(".tf") { Some(content.to_string()) } else { None };
        out.push(RepoEntry { dir_names, name, is_dir: false, rel_path: rel_path.to_string(), tf_content });
    }
    out
}

fn analyze(files: &[(&str, &str)]) -> Analysis {
    Analyzer::analyze_files(&entries(files))
}

#[test]
fn detects_multiple_technologies() {
    let analysis = analyze(&[
        ("package.json", "{}"),
        ("Dockerfile", "FROM alpine"),
        ("main.tf", ""),
        ("go.mod", "module example.com/x"),
    ]);

    assert_eq!(analysis.technologies, vec!["docker", "go", "nodejs", "terraform"]);
}

#[test]
fn extracts_terraform_resources() {
    let analysis = analyze(&[(
        "main.tf",
        r#"
resource "aws_s3_bucket" "artifacts" {
  bucket = "my-artifacts"
}

resource "aws_instance" "web" {
  ami = "ami-123"
}
"#,
    )]);

    assert_eq!(analysis.terraform_resources.len(), 2);
    assert!(analysis.terraform_resources.contains(&TerraformResource {
        resource_type: "aws_s3_bucket".to_string(),
        resource_name: "artifacts".to_string(),
        file_path: "main.tf".to_string(),
    }));
    assert!(analysis.terraform_resources.contains(&TerraformResource {
        resource_type: "aws_instance".to_string(),
        resource_name: "web".to_string(),
        file_path: "main.tf".to_string(),
    }));
}

#[test]
fn ignores_git_and_dependency_directories() {
    let analysis = analyze(&[
        (".git/HEAD", "ref: refs/heads/main"),
        ("node_modules/pkg/index.js", "module.exports = {}"),
        ("target/debug/mcp-scanner", "binary"),
        ("src/main.rs", "fn main() {}"),
    ]);

    // Only src/main.rs should be counted; .git, node_modules, target are skipped.
    assert_eq!(analysis.file_count, 1);
}

#[test]
fn detects_kebab_case_naming_convention() {
    let analysis = analyze(&[
        ("user-service.go", ""),
        ("api-gateway.go", ""),
        ("data-store.go", ""),
    ]);

    assert_eq!(analysis.naming_convention, NamingConvention::KebabCase);
}

#[test]
fn detects_snake_case_naming_convention() {
    let analysis = analyze(&[
        ("user_service.py", ""),
        ("api_gateway.py", ""),
        ("data_store.py", ""),
    ]);

    assert_eq!(analysis.naming_convention, NamingConvention::SnakeCase);
}

#[test]
fn mixed_naming_convention_when_no_majority() {
    let analysis = analyze(&[
        ("user-service.go", ""),
        ("api_gateway.py", ""),
        ("dataStore.js", ""),
    ]);

    assert_eq!(analysis.naming_convention, NamingConvention::Mixed);
}

#[test]
fn empty_repo_produces_empty_analysis() {
    let analysis = analyze(&[]);

    assert!(analysis.technologies.is_empty());
    assert!(analysis.terraform_resources.is_empty());
    assert_eq!(analysis.file_count, 0);
    assert_eq!(analysis.naming_convention, NamingConvention::Mixed);
}

#[test]
fn detect_technology_maps_each_marker_file() {
    let cases: [(&str, Option<&str>); 22] = [
        ("package.json", Some("nodejs")),
        ("Cargo.toml", Some("rust")),
        ("go.mod", Some("go")),
        ("requirements.txt", Some("python")),
        ("pyproject.toml", Some("python")),
        ("Pipfile", Some("python")),
        ("docker-compose.yml", Some("docker-compose")),
        ("docker-compose.yaml", Some("docker-compose")),
        ("Gemfile", Some("ruby")),
        ("pom.xml", Some("java")),
        ("build.gradle", Some("java")),
        ("build.gradle.kts", Some("java")),
        ("Dockerfile", Some("docker")),
        ("Dockerfile.dev", Some("docker")),
        ("network.tf", Some("terraform")),
        ("prod.tfvars", Some("terraform")),
        ("deploy-k8s.yml", Some("kubernetes")),
        ("kustomization.yml", Some("kubernetes")),
        ("kustomization.yaml", None),
        ("Dockerfiles", None),
        ("package.json.bak", None),
        ("README.md", None),
    ];
    for (name, expected) in cases {
        assert_eq!(detect_technology(name), expected, "{name}");
    }
    assert_eq!(Technology::of_file("Cargo.toml"), Some(Technology::Rust));
    assert_eq!(Technology::of_file("notes.txt"), None);
    assert_eq!(Technology::DockerCompose.name(), "docker-compose");
}

#[test]
fn technologies_are_sorted_and_deduplicated() {
    let analysis = analyze(&[
        ("terraform/a.tf", ""),
        ("terraform/b.tfvars", ""),
        ("docker-compose.yml", ""),
        ("Dockerfile", ""),
        ("Dockerfile.ci", ""),
        ("services/api/Cargo.toml", ""),
        ("ops/k8s-deploy.yml", ""),
        ("Gemfile", ""),
        ("web/package.json", ""),
    ]);
    assert_eq!(
        analysis.technologies,
        vec!["docker", "docker-compose", "kubernetes", "nodejs", "ruby", "rust", "terraform"]
    );
    let mut sorted = analysis.technologies.clone();
    sorted.sort();
    sorted.dedup();
    assert_eq!(sorted, analysis.technologies);
}

#[test]
fn ignored_directories_hide_technologies_and_resources() {
    let analysis = analyze(&[
        ("vendor/lib/package.json", "{}"),
        (".terraform/modules/x.tf", r#"resource "a" "b" {}"#),
        ("app/user-service.go", ""),
    ]);
    assert!(analysis.technologies.is_empty());
    assert!(analysis.terraform_resources.is_empty());
    assert_eq!(analysis.file_count, 1);
    assert_eq!(analysis.naming_convention, NamingConvention::KebabCase);
}

#[test]
fn a_root_with_an_ignored_name_is_skipped_whole() {
    let f = RepoEntry {
        dir_names: vec!["target".to_string()],
        name: "main.tf".to_string(),
        is_dir: false,
        rel_path: "main.tf".to_string(),
        tf_content: Some(r#"resource "a" "b" {"#.to_string()),
    };
    let analysis = Analyzer::analyze_files(&vec![f]);
    assert_eq!(analysis.file_count, 0);
    assert!(analysis.terraform_resources.is_empty());
}

#[test]
fn resources_keep_walk_order_and_paths() {
    let analysis = analyze(&[
        ("modules/net/vpc.tf", r#"resource "aws_vpc" "main" {}"#),
        ("README.md", r#"resource "not" "scanned" {"#),
        ("main.tf", r#"resource "aws_subnet" "a" {} resource "aws_subnet" "b" {}"#),
    ]);
    let got: Vec<(String, String, String)> = analysis
        .terraform_resources
        .iter()
        .map(|r| (r.resource_type.clone(), r.resource_name.clone(), r.file_path.clone()))
        .collect();
    assert_eq!(
        got,
        vec![
            ("aws_vpc".to_string(), "main".to_string(), "modules/net/vpc.tf".to_string()),
            ("aws_subnet".to_string(), "a".to_string(), "main.tf".to_string()),
            ("aws_subnet".to_string(), "b".to_string(), "main.tf".to_string()),
        ]
    );
}

#[test]
fn directory_names_vote_on_the_naming_convention() {
    let analysis = analyze(&[
        ("user-service/main.go", ""),
        ("api-gateway/main.go", ""),
        ("data_store.py", ""),
    ]);
    assert_eq!(analysis.naming_convention, NamingConvention::KebabCase);
    assert_eq!(analysis.file_count, 3);

    let analysis = analyze(&[("a-b/c", "")]);
    assert_eq!(analysis.naming_convention, NamingConvention::KebabCase);
    assert_eq!(analysis.file_count, 1);
}

#[test]
fn directories_reveal_no_technology_and_ignored_ones_do_not_vote() {
    let dirs = vec![
        RepoEntry {
            dir_names: vec!["repo".to_string()],
            name: "Dockerfile.d".to_string(),
            is_dir: true,
            rel_path: "Dockerfile.d".to_string(),
            tf_content: None,
        },
        RepoEntry {
            dir_names: vec!["repo".to_string()],
            name: "node_modules".to_string(),
            is_dir: true,
            rel_path: "node_modules".to_string(),
            tf_content: None,
        },
        RepoEntry {
            dir_names: vec!["repo".to_string(), "node_modules".to_string()],
            name: "left-pad".to_string(),
            is_dir: true,
            rel_path: "node_modules/left-pad".to_string(),
            tf_content: None,
        },
    ];
    let analysis = Analyzer::analyze_files(&dirs);
    assert!(analysis.technologies.is_empty());
    assert_eq!(analysis.file_count, 0);
    assert_eq!(analysis.naming_convention, NamingConvention::Mixed);
}

#[test]
fn is_ignored_dir_only_for_directories() {
    for name in [".git", "node_modules", "target", "vendor", ".terraform"] {
        assert!(is_ignored_dir(name, true), "{name}");
        assert!(!is_ignored_dir(name, false), "{name}");
    }
    assert!(!is_ignored_dir("src", true));
    assert!(!is_ignored_dir("Target", true));
    assert!(is_terraform_file("main.tf"));
    assert!(!is_terraform_file("main.tfvars"));
}

#[test]
fn naming_votes_follow_the_stem() {
    let mut votes = NamingVotes::new();
    for name in [
        "user-service.go",
        "api_gateway.py",
        "dataStore.js",
        "README",
        "Dockerfile",
        ".gitignore",
        "mixed-name_here.txt",
        "a.b-c.d",
        "HTTPServer.go",
    ] {
        votes.observe(name);
    }
    assert_eq!((votes.kebab, votes.snake, votes.camel), (1, 1, 2));

    let mut readme = NamingVotes::new();
    readme.observe("README.md");
    readme.observe("LICENSE");
    assert_eq!((readme.kebab, readme.snake, readme.camel), (0, 0, 0));
}

#[test]
fn dominant_needs_a_strict_majority() {
    let cases = [
        ((0, 0, 0), NamingConvention::Mixed),
        ((1, 1, 0), NamingConvention::Mixed),
        ((2, 1, 0), NamingConvention::KebabCase),
        ((1, 2, 0), NamingConvention::SnakeCase),
        ((0, 1, 2), NamingConvention::CamelCase),
        ((2, 1, 1), NamingConvention::Mixed),
        ((3, 1, 1), NamingConvention::KebabCase),
        ((0, 0, 1), NamingConvention::CamelCase),
    ];
    for ((kebab, snake, camel), expected) in cases {
        let votes = NamingVotes { kebab, snake, camel };
        assert_eq!(votes.dominant(), expected, "{kebab} {snake} {camel}");
    }
}

fn headers_by_regex(content: &str) -> Vec<(String, String)> {
    let re = regex::Regex::new(r#"resource\s+"([^"]+)"\s+"([^"]+)"\s*\{"#).unwrap();
    re.captures_iter(content).map(|c| (c[1].to_string(), c[2].to_string())).collect()
}

#[test]
fn resource_headers_match_the_documented_pattern() {
    let samples = [
        "",
        r#"resource "a" "b" {"#,
        r#"resource"a" "b" {"#,
        r#"resource "a""b" {"#,
        r#"resource "a" "b"{"#,
        r#"resource "" "b" {"#,
        r#"resource "a" "" {"#,
        r#"resource "a" "b" x {"#,
        "resource\t\"a\"\n\"b\"\n\n{",
        "resource\u{a0}\"a\"\u{3000}\"b\"\u{2028}{",
        "resource \"multi\nline\" \"n\" {",
        r#"resourceresource "a" "b" {"#,
        r#"resource resource "a" "b" {"#,
        r#"xresource "a" "b" { resource "c" "d" {"#,
        r#"resource "a" "b" { resource "c" "d" { resource "e" "f""#,
        r#"data "x" "y" { resource "t" "n" {} }"#,
        r#"resource "é" "ü" {"#,
        r#"resource "a" "resource "b" "c" {"#,
        "# resource \"commented\" \"out\" {\nresource \"real\" \"one\" {",
    ];
    for s in samples {
        assert_eq!(find_resource_headers(s), headers_by_regex(s), "{s:?}");
    }
}
