use bundler::process::{path_lies_within, processes_from_directory, ProcessInfo};

fn path(components: &[&str]) -> Vec<String> {
    components.iter().map(|c| c.to_string()).collect()
}

fn process(pid: u32, exe: Option<&[&str]>) -> ProcessInfo {
    ProcessInfo { pid, exe: exe.map(path) }
}

#[test]
fn whole_components_are_compared() {
    let dir = path(&["C:", "Apps", "demo"]);
    assert!(path_lies_within(&path(&["C:", "Apps", "demo", "demo.exe"]), &dir));
    assert!(path_lies_within(&path(&["C:", "Apps", "demo", "bin", "x.exe"]), &dir));
    assert!(path_lies_within(&path(&["C:", "Apps", "demo"]), &dir));
    // A longer name that begins alike is another directory.
    assert!(!path_lies_within(&path(&["C:", "Apps", "demo2", "demo.exe"]), &dir));
    assert!(!path_lies_within(&path(&["C:", "Apps", "dem", "o", "demo.exe"]), &dir));
    assert!(!path_lies_within(&path(&["C:", "Apps"]), &dir));
    assert!(!path_lies_within(&path(&["D:", "Apps", "demo", "demo.exe"]), &dir));
    assert!(!path_lies_within(&path(&[]), &dir));
    // Everything lies within the empty path.
    assert!(path_lies_within(&path(&["C:"]), &path(&[])));
    assert!(path_lies_within(&path(&[]), &path(&[])));
}

#[test]
fn processes_rooted_in_the_directory_are_chosen_in_order() {
    let dir = path(&["C:", "Apps", "demo"]);
    let processes = vec![
        process(4, Some(&["C:", "Windows", "system32", "svchost.exe"])),
        process(812, Some(&["C:", "Apps", "demo", "demo.exe"])),
        process(90, None),
        process(7, Some(&["C:", "Apps", "demo", "helpers", "crash.exe"])),
        process(813, Some(&["C:", "Apps", "demo-old", "demo.exe"])),
        process(812, Some(&["C:", "Apps", "demo", "demo.exe"])),
        process(5, Some(&["C:", "Apps"])),
    ];
    assert_eq!(processes_from_directory(&processes, &dir), vec![812, 7, 812]);
}

#[test]
fn nothing_is_chosen_where_nothing_is_rooted() {
    let dir = path(&["C:", "Apps", "demo"]);
    assert_eq!(processes_from_directory(&Vec::new(), &dir), Vec::<u32>::new());
    let processes = vec![process(1, None), process(2, Some(&["C:", "Apps", "other", "a.exe"]))];
    assert_eq!(processes_from_directory(&processes, &dir), Vec::<u32>::new());
}
