use dinner_days::args::{EditArgs, EditType, FileArgs, GenerateArgs, ShowArgs};

#[test]
fn file_args_hand_back_what_was_given() {
    let args = FileArgs::new(Some("menu.txt".to_string()), None);
    assert_eq!(args.input_file(), Some("menu.txt".to_string()));
    assert_eq!(args.output_file(), None);
}

#[test]
fn show_args_name_the_output_resource() {
    let args = ShowArgs::new("chosen.txt".to_string());
    assert_eq!(args.output_path(), "chosen.txt");
}

#[test]
fn generate_args_carry_count_and_reset() {
    let files = FileArgs::new(None, Some("chosen.txt".to_string()));
    let args = GenerateArgs::new(files, Some(5), true);
    assert_eq!(args.days(), Some(5));
    assert!(args.reset());
    assert_eq!(args.file_args().output_file(), Some("chosen.txt".to_string()));
}

#[test]
fn edit_args_carry_the_edit_values() {
    let files = FileArgs::new(None, None);
    let args = EditArgs::new(files, EditType::SwapEntry, Some(vec!["a".to_string()]));
    assert_eq!(*args.edit_field(), EditType::SwapEntry);
    assert_eq!(args.entry(), Some(&vec!["a".to_string()]));
    let none = EditArgs::new(FileArgs::new(None, None), EditType::AddToInput, None);
    assert_eq!(none.entry(), None);
}
