use combinator::composite::{Component, File, Folder};

#[test]
fn component() {
    let file1 = File::new("File1");
    let file2 = File::new("File2");
    let file3 = File::new("File3");

    let mut folder1 = Folder::new("Folder1");
    folder1.add_component(file1);

    let mut folder2 = Folder::new("Folder2");
    folder2.add_component(file2);
    folder2.add_component(file3);
    folder2.add_component(folder1);

    let visits = folder2.search("rust");
    let seen: Vec<(bool, &str)> = visits.iter().map(|v| (v.is_folder, v.name.as_str())).collect();
    assert_eq!(
        vec![(true, "Folder2"), (false, "File2"), (false, "File3"), (true, "Folder1"), (false, "File1")],
        seen
    );
}

#[test]
fn search_of_a_file_visits_only_it() {
    let file = File::new("notes");
    let visits = file.search("rust");
    assert_eq!(1, visits.len());
    assert!(!visits[0].is_folder);
    assert_eq!("notes", visits[0].name);
}

#[test]
fn empty_folder_visits_only_itself() {
    let folder = Folder::new("empty");
    let visits = folder.search("anything");
    assert_eq!(1, visits.len());
    assert!(visits[0].is_folder);
    assert_eq!("empty", visits[0].name);
}
