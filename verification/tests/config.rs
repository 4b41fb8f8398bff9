use glacier::config::{append_bootloader, configuration_file, flake_file, home_file, Answers};
use glacier::template::{fill, Slot};

fn answers() -> Answers {
    Answers {
        system_name: "desktop".to_string(),
        user: "john".to_string(),
        full_name: "John Doe".to_string(),
        email: "john@doe.com".to_string(),
        wm: "hyprland".to_string(),
        terminal: "kitty".to_string(),
        dm: "sddm".to_string(),
        launcher: "wofi".to_string(),
        browser: "firefox".to_string(),
        shell: "noctalia".to_string(),
        editor: "micro".to_string(),
        wallpaper: "mountain".to_string(),
        theme: "nord".to_string(),
    }
}

const SLOTS: [&str; 13] = [
    "{systemName}",
    "{user}",
    "{email}",
    "{colors}",
    "{fullName}",
    "{wm}",
    "{terminal}",
    "{dm}",
    "{launcher}",
    "{browser}",
    "{shell}",
    "{editor}",
    "{wallpaper}",
];

#[test]
fn the_flake_names_system_and_modules() {
    let flake = flake_file(&answers());
    assert!(flake.starts_with("{\n  description = \"My GlacierOS\";\n"));
    assert!(flake.contains("\n      glacier.glacierModules.hyprland\n"));
    assert!(flake.contains("\n      glacier.glacierModules.kitty\n"));
    assert!(flake.contains("\n      glacier.glacierModules.sddm\n"));
    assert!(flake.contains("\n      glacier.glacierModules.wofi\n"));
    assert!(flake.contains("\n      glacier.glacierModules.firefox\n"));
    assert!(flake.contains("\n      glacier.glacierModules.noctalia\n"));
    assert!(flake.contains("\n      glacier.glacierModules.micro\n"));
    assert!(flake.contains("\n      desktop = nixpkgs.lib.nixosSystem {\n"));
    assert!(flake.contains("modules = baseModules ++ [./hosts/desktop.nix];"));
    assert!(flake.contains("specialArgs = {inherit glacier;};"));
    assert!(flake.contains("{pkgs, ...}: {"));
    assert!(flake.ends_with("  };\n}\n"));
}

#[test]
fn the_configuration_names_user_and_modules() {
    let configuration = configuration_file(&answers());
    assert!(configuration.contains("glacier.glacierHomeModules.hyprland\n"));
    assert!(configuration.contains("glacier.glacierThemeModules.nord\n"));
    assert!(configuration.contains("  glacier.noctalia.enable = true;\n"));
    assert!(configuration.contains("  glacier.users.john = {\n"));
    assert!(configuration.contains("    fullName = \"John Doe\";\n"));
    assert!(configuration.contains("    emailAddress = \"john@doe.com\";\n"));
    assert!(configuration.contains("system.stateVersion = \"26.05\";\n"));
}

#[test]
fn the_home_configuration_names_the_wallpaper() {
    assert_eq!(
        home_file(&answers()),
        "{\n  pkgs,\n  config,\n  lib,\n  glacier,\n  ...\n}: {\n  home.stateVersion = \"25.11\";\n  \
         glacier.wallpaper = config.glacier.defaultWallpapers.mountain;\n}\n"
    );
}

#[test]
fn no_slot_is_left() {
    let a = answers();
    for file in [flake_file(&a), configuration_file(&a), home_file(&a)] {
        for slot in SLOTS {
            assert!(!file.contains(slot), "{}", slot);
        }
    }
}

#[test]
fn a_slot_that_is_typed_is_filled_where_its_turn_comes_later() {
    let mut a = answers();
    a.user = "{email}".to_string();
    a.full_name = "{user}".to_string();
    let configuration = configuration_file(&a);
    assert!(configuration.contains("glacier.users.john@doe.com = {"));
    assert!(configuration.contains("fullName = \"{user}\";"));
}

#[test]
fn slots_are_filled_one_after_the_other() {
    let slots = vec![Slot { slot: "{a}", value: "{b}" }, Slot { slot: "{b}", value: "x" }];
    assert_eq!(fill("{a}-{b}", &slots), "x-x");
    let slots = vec![Slot { slot: "{b}", value: "x" }, Slot { slot: "{a}", value: "{b}" }];
    assert_eq!(fill("{a}-{b}", &slots), "{b}-x");
    assert_eq!(fill("plain", &Vec::new()), "plain");
}

#[test]
fn the_boot_loader_goes_before_the_last_brace() {
    let content = "{ config, ... }:\n{\n  imports = [ ];\n}\n";
    let expected = "{ config, ... }:\n{\n  imports = [ ];\n\n  boot.loader = {\n    efi = {\n      \
                    canTouchEfiVariables = true;\n      efiSysMountPoint = \"/boot\";\n    };\n    \
                    grub = {\n      enable = true;\n      device = \"nodev\";\n      efiSupport = true;\n    \
                    };\n  };\n}\n";
    assert_eq!(append_bootloader(content, true), expected);
}

#[test]
fn the_boot_loader_of_legacy_firmware() {
    assert_eq!(
        append_bootloader("{}", false),
        "{\n  boot.loader = {\n    grub = {\n      enable = true;\n      device = \"{disk}\";\n      \
         efiSupport = false;\n    };\n  };\n}"
    );
}

#[test]
fn the_boot_loader_closes_a_text_without_a_brace() {
    let r = append_bootloader("# empty", true);
    assert!(r.starts_with("# empty\n  boot.loader = {\n"));
    assert!(r.ends_with("  };\n}\n"));
    assert_eq!(append_bootloader("", true), format!("{}", &r["# empty".len()..]));
}

#[test]
fn the_boot_loader_leaves_the_rest_as_it_was() {
    let content = "ä { x } ö }\nrest ü";
    let r = append_bootloader(content, false);
    assert!(r.starts_with("ä { x } ö \n"));
    assert!(r.ends_with("\n}\nrest ü"));
}
