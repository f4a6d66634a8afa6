use aetherment::uld::{
    add_parts_list, delete_parts_list, longest_common_substring, longest_common_substring_all, name_from_part,
    names_from_parts_list, next_id, part_label, parts_list_label, path_name, UldPart, UldPartsList, UldTexture,
};

fn part(texture_id: u32) -> UldPart {
    UldPart { texture_id, u: 0, v: 0, w: 8, h: 8 }
}

fn tex(id: u32, path: &str) -> UldTexture {
    UldTexture { id, path: path.to_string() }
}

#[test]
fn path_names_drop_folders_and_extensions() {
    assert_eq!(path_name("ui/uld/JobHudWAR0.uld"), "JobHudWAR0");
    assert_eq!(path_name("a.b.c"), "a");
    assert_eq!(path_name("dir/"), "");
    assert_eq!(path_name("plain"), "plain");
}

#[test]
fn longest_common_piece_first_in_a() {
    assert_eq!(longest_common_substring("abcXYZdef", "defXYZ"), "XYZ");
    assert_eq!(longest_common_substring("abXcdY", "cdYab"), "cdY");
    assert_eq!(longest_common_substring("abcd", "cdab"), "ab");
    assert_eq!(longest_common_substring("abc", "xyz"), "");
    assert_eq!(longest_common_substring("", "xyz"), "");
}

#[test]
fn common_name_of_several() {
    let names = vec!["ui_icon_jobhud_01".to_string(), "xx_icon_jobhud_02".to_string(), "yy_jobhud_icon".to_string()];
    assert_eq!(longest_common_substring_all(&names), "jobhud");
    let short = vec!["abcdef".to_string(), "abxyz".to_string()];
    assert_eq!(longest_common_substring_all(&short), "abcdef");
    assert_eq!(longest_common_substring_all(&vec!["__x__".to_string()]), "x");
    assert_eq!(longest_common_substring_all(&vec![]), "");
}

#[test]
fn parts_name_their_textures() {
    let assets = vec![tex(2, "ui/uld/Parts_a.tex"), tex(5, "ui/uld/other.tex"), tex(2, "ui/uld/dup.tex")];
    assert_eq!(name_from_part(&part(2), &assets), "Parts_a");
    assert_eq!(name_from_part(&part(9), &assets), "Invalid");
    let list = UldPartsList { id: 1, parts: vec![part(5), part(3)] };
    assert_eq!(names_from_parts_list(&list, &assets), vec!["other".to_string(), "Invalid".to_string()]);
}

#[test]
fn new_ids_follow_the_largest() {
    assert_eq!(next_id(&vec![3, 9, 4], 0), 10);
    assert_eq!(next_id(&vec![], 1000), 1001);
    assert_eq!(next_id(&vec![0], 1000), 1);
}

#[test]
fn parts_lists_are_labelled() {
    let assets = vec![tex(1, "ui/uld/JobHudWAR0_icon.tex"), tex(2, "ui/uld/JobHudWAR0_gauge.tex")];
    let list = UldPartsList { id: 12, parts: vec![part(1), part(2)] };
    assert_eq!(parts_list_label(&list, &assets), "(12) JobHudWAR0");
    assert_eq!(part_label(&part(2), &assets), "(2) JobHudWAR0_gauge");
    assert_eq!(part_label(&part(7), &assets), "(7) Invalid");
}

#[test]
fn parts_lists_are_added_and_deleted() {
    let mut lists = vec![UldPartsList { id: 4, parts: vec![part(1)] }, UldPartsList { id: 2, parts: vec![] }];
    add_parts_list(&mut lists);
    assert_eq!(lists.len(), 3);
    assert_eq!(lists[2].id, 5);
    assert!(lists[2].parts.is_empty());
    delete_parts_list(&mut lists, 4);
    let ids: Vec<u32> = lists.iter().map(|l| l.id).collect();
    assert_eq!(ids, vec![2, 5]);
    let mut empty: Vec<UldPartsList> = vec![];
    add_parts_list(&mut empty);
    assert_eq!(empty[0].id, 1);
}
