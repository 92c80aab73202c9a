use chiptrack::sram::{gba_sav_image, gba_sram_parts, save_song_to_gba_sram, SavError};

#[test]
fn sav_image_layout() {
    let image = gba_sav_image(&vec![1, 2, 3], &vec![9]).unwrap();
    assert_eq!(image, vec![3, 0, 0, 0, 1, 0, 0, 0, 1, 2, 3, 9]);
    let big = vec![7u8; 300];
    let image = gba_sav_image(&big, &vec![]).unwrap();
    assert_eq!(&image[..8], &[44, 1, 0, 0, 0, 0, 0, 0]);
    assert_eq!(image.len(), 308);
}

#[test]
fn sav_image_too_large() {
    let instruments = vec![0u8; 32760];
    assert_eq!(gba_sav_image(&instruments, &vec![]), Err(SavError::TooLarge(32768)));
    assert!(gba_sav_image(&vec![0u8; 32759], &vec![]).is_ok());
    assert_eq!(gba_sav_image(&vec![0u8; 20000], &vec![0u8; 20000]), Err(SavError::TooLarge(40008)));
}

#[test]
fn sram_parts_give_back_the_save() {
    let image = gba_sav_image(&vec![1, 2, 3], &vec![9, 8]).unwrap();
    assert_eq!(gba_sram_parts(&image), Some((vec![1, 2, 3], vec![9, 8])));
    let mut sram = image.clone();
    sram.extend(std::iter::repeat(0xff).take(100));
    assert_eq!(gba_sram_parts(&sram), Some((vec![1, 2, 3], vec![9, 8])));
}

#[test]
fn erased_or_short_sram_holds_nothing() {
    assert_eq!(gba_sram_parts(&vec![0xff; 64]), None);
    assert_eq!(gba_sram_parts(&vec![1, 0, 0, 0]), None);
    assert_eq!(gba_sram_parts(&vec![4, 0, 0, 0, 0, 0, 0, 0, 1, 2]), None);
}

#[test]
fn saving_to_sram_keeps_its_instruments() {
    let mut sram = vec![0xffu8; 64];
    save_song_to_gba_sram(&mut sram, false, &vec![1, 2, 3], &vec![9, 8]);
    assert_eq!(&sram[..13], &[3, 0, 0, 0, 2, 0, 0, 0, 1, 2, 3, 9, 8]);
    assert_eq!(sram[13], 0xff);
    assert_eq!(gba_sram_parts(&sram), Some((vec![1, 2, 3], vec![9, 8])));
    save_song_to_gba_sram(&mut sram, false, &vec![7; 5], &vec![4]);
    assert_eq!(&sram[..13], &[3, 0, 0, 0, 1, 0, 0, 0, 1, 2, 3, 4, 8]);
    assert_eq!(gba_sram_parts(&sram), Some((vec![1, 2, 3], vec![4])));
    save_song_to_gba_sram(&mut sram, true, &vec![7; 5], &vec![4]);
    assert_eq!(gba_sram_parts(&sram), Some((vec![7; 5], vec![4])));
}
