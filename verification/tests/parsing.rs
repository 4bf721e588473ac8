use materialist::parsing::ContentPackage;
use materialist::parsing::WorkshopCollectionPage;
use materialist::parsing::WorkshopItemChangelog;
use materialist::parsing::WorkshopItemFileDetails;
use materialist::types::WorkshopId;

const EXAMPLE_FILELIST: &str = r#"<?xml version="1.0" encoding="utf-8"?>
<contentpackage name="Dunwall V" modversion="1.0.2" corepackage="False" gameversion="1.3.0.1" expectedhash="205BDCF97B2C6316CA6115027E1E27DF">
  <Item file="%ModDir%/Content/items.xml" />
  <Submarine file="%ModDir%/Dunwall V.sub" />
</contentpackage>"#;

const EXAMPLE_XAN: &str = r#"<?xml version="1.0" encoding="utf-8"?>
<contentpackage name="XanMonsters" steamworkshopid="2108010462" corepackage="false" gameversion="0.17.12.0">
  <Character file="%ModDir%/Characters/Xan/Xan.xml" />
</contentpackage>"#;

const EXAMPLE_ITEM: &str = r#"<!DOCTYPE html>
<html><head><title>Steam Workshop::Soundproof Walls 2.0</title></head>
<body>
<div class="apphub_HomeHeaderContent" data-appid="602960"><div class="apphub_AppName">Barotrauma</div></div>
<div class="sectionTabs item responsive_hidden">
  <a href="https://steamcommunity.com/sharedfiles/filedetails/?id=3153737715" class="sectionTab active"><span>Description</span></a>
  <a href="https://steamcommunity.com/sharedfiles/filedetails/changelog/3153737715" class="sectionTab"><span>Change Notes</span></a>
</div>
<div class="workshopItemTitle">  Soundproof Walls 2.0
</div>
<div class="creatorsBlock">
  <div class="friendBlock persona offline">
    <div class="friendBlockContent">
      Plag<br>
      <span class="friendSmallText">Offline</span>
    </div>
  </div>
</div>
</body></html>"#;

const EXAMPLE_ITEM_2: &str = r#"<!DOCTYPE html>
<html><body>
<div data-appid="602960"></div>
<div class="sectionTabs">
  <a href="https://steamcommunity.com/sharedfiles/filedetails/?id=2532991202" class="sectionTab active"><span>Description</span></a>
</div>
<div class="workshopItemTitle">DynamicEuropa</div>
<div class="creatorsBlock">
  <div class="friendBlock"><div class="friendBlockContent">hUbert 2<br><span class="friendSmallText">Online</span></div></div>
  <div class="friendBlock"><div class="friendBlockContent">
  _]|M|[_<br><span class="friendSmallText">Offline</span></div></div>
  <div class="friendBlock"><div class="friendBlockContent"><span>nobody</span></div></div>
  <div class="friendBlock"><div class="friendBlockContent">MasonMachineGuns	<br></div></div>
</div>
</body></html>"#;

const EXAMPLE_COLLECTION: &str = r#"<!DOCTYPE html>
<html><body>
<div data-appid="602960"></div>
<div class="sectionTabs">
  <a href="https://steamcommunity.com/sharedfiles/filedetails/?id=3394099945" class="sectionTab active"><span>Description</span></a>
</div>
<div class="workshopItemTitle">Casual Ironman Campaign</div>
<div class="creatorsBlock">
  <div class="friendBlock"><div class="friendBlockContent">_]|M|[_<br><span class="friendSmallText">Offline</span></div></div>
</div>
<div class="collectionChildren">
  <div class="collectionItem"><a href="https://steamcommunity.com/sharedfiles/filedetails/?id=2559634234"><div class="workshopItemTitle">One</div></a></div>
  <div class="collectionItem"><a href="https://steamcommunity.com/sharedfiles/filedetails/?id=3153737715"><div class="workshopItemTitle">Two</div></a></div>
  <div class="collectionItem"><a href="https://steamcommunity.com/sharedfiles/filedetails/?id=3218219821&searchtext="><div class="workshopItemTitle">Three</div></a></div>
  <div class="collectionItem"><a href="https://example.com/elsewhere">not an item</a></div>
  <div class="collectionItem"><a href="https://steamcommunity.com/sharedfiles/filedetails/?id=42">Four</a></div>
</div>
</body></html>"#;

const EXAMPLE_CHANGELOG: &str = r#"<!DOCTYPE html>
<html><body>
<div data-appid="602960"></div>
<div class="sectionTabs">
  <a href="https://steamcommunity.com/sharedfiles/filedetails/?id=3153737715" class="sectionTab"><span>Description</span></a>
</div>
<div class="workshopAnnouncement noBackground">
  <div class="headline">Update: 25 Sep @ 6:53am</div>
  <p id="1758783215">the latest change</p>
</div>
<div class="workshopAnnouncement noBackground">
  <div class="headline">Update: 1 Sep @ 1:00am</div>
  <p id="1756688400">an earlier change</p>
</div>
</body></html>"#;

fn id(s: &str) -> WorkshopId {
    s.parse().unwrap()
}

#[test]
fn test_filelist() {
    let p = ContentPackage::parse(EXAMPLE_FILELIST).unwrap();
    assert_eq!("Dunwall V", p.name);
    assert_eq!("1.0.2", p.version);
}

#[test]
fn test_file_details() {
    let res = EXAMPLE_ITEM.parse::<WorkshopItemFileDetails>();
    assert_eq!(
        res,
        Ok(WorkshopItemFileDetails {
            appid: "602960".to_string(),
            workshopid: "3153737715".parse().unwrap(),
            title: "Soundproof Walls 2.0".to_string(),
            authors: vec!["Plag".to_string()],
        })
    );

    let res = EXAMPLE_ITEM_2.parse::<WorkshopItemFileDetails>();
    assert_eq!(
        res,
        Ok(WorkshopItemFileDetails {
            appid: "602960".to_string(),
            workshopid: "2532991202".parse().unwrap(),
            title: "DynamicEuropa".to_string(),
            authors: vec![
                "hUbert 2".to_string(),
                "_]|M|[_".to_string(),
                "MasonMachineGuns".to_string(),
            ],
        })
    );

    let res = EXAMPLE_COLLECTION.parse::<WorkshopItemFileDetails>();
    assert_eq!(
        res,
        Ok(WorkshopItemFileDetails {
            appid: "602960".to_string(),
            workshopid: "3394099945".parse().unwrap(),
            title: "Casual Ironman Campaign".to_string(),
            authors: vec!["_]|M|[_".to_string(),],
        })
    );
}

#[test]
fn test_changelog() {
    let res = EXAMPLE_CHANGELOG.parse::<WorkshopItemChangelog>();
    assert!(res.is_ok());
    assert_eq!(res.unwrap().latest_timestamp, 1758783215);
}

#[test]
fn test_collection() {
    let res = EXAMPLE_COLLECTION.parse::<WorkshopCollectionPage>();
    assert!(res.is_ok());
    assert_eq!(
        &res.unwrap().items[..3],
        vec![id("2559634234"), id("3153737715"), id("3218219821"),]
    );

    let res = EXAMPLE_ITEM.parse::<WorkshopCollectionPage>();
    assert!(res.is_err());
}

#[test]
fn test_content_package() {
    assert_eq!(
        Ok(ContentPackage { name: "XanMonsters".to_string(), version: "".to_string() }),
        EXAMPLE_XAN.parse(),
    );
}

#[test]
fn a_file_list_without_the_element_or_its_name() {
    assert_eq!("<other/>".parse::<ContentPackage>(), Err("no contentpackage element"));
    assert_eq!(
        "<contentpackage modversion=\"1\"/>".parse::<ContentPackage>(),
        Err("no name attribute")
    );
    assert_eq!(ContentPackage::from_filelist("<other/>"), None);
    assert_eq!(
        ContentPackage::from_filelist(EXAMPLE_FILELIST),
        Some(ContentPackage { name: "Dunwall V".to_string(), version: "1.0.2".to_string() })
    );
}

#[test]
fn content_package_from_what_was_found() {
    assert_eq!(
        ContentPackage::from_parts(true, Some("a".to_string()), None),
        Ok(ContentPackage { name: "a".to_string(), version: String::new() })
    );
    assert_eq!(
        ContentPackage::from_parts(false, Some("a".to_string()), Some("1".to_string())),
        Err("no contentpackage element")
    );
    assert_eq!(ContentPackage::from_parts(true, None, None), Err("no name attribute"));
}

#[test]
fn a_page_without_appid_or_link() {
    assert_eq!("<p>nothing</p>".parse::<WorkshopItemFileDetails>(), Err("no appid"));
    assert_eq!(
        "<div data-appid=\"1\"></div>".parse::<WorkshopItemFileDetails>(),
        Err("no workshop url")
    );
    assert_eq!(
        WorkshopItemFileDetails::from_parts(
            Some("1".to_string()),
            Some("https://steamcommunity.com/sharedfiles/filedetails/?id=".to_string()),
            String::new(),
            vec![]
        ),
        Err("no workshop url")
    );
}

#[test]
fn file_details_from_what_was_found() {
    let d = WorkshopItemFileDetails::from_parts(
        Some("602960".to_string()),
        Some("https://steamcommunity.com/workshop/filedetails/?id=77&x=1".to_string()),
        "\n\t A title \u{a0}".to_string(),
        vec![" a ".to_string(), "   ".to_string(), String::new(), "b\n".to_string()],
    )
    .unwrap();
    assert_eq!(d.appid, "602960");
    assert_eq!(d.workshopid, id("77"));
    assert_eq!(d.title, "A title");
    assert_eq!(d.authors, vec!["a".to_string(), "b".to_string()]);
}

#[test]
fn a_changelog_is_read_stamp_first() {
    assert_eq!(WorkshopItemChangelog::parse("<p>x</p>").unwrap_err(), "no timestamp");
    assert_eq!(
        WorkshopItemChangelog::parse("<div class=\"workshopAnnouncement\"><p id=\"soon\">x</p></div>")
            .unwrap_err(),
        "parse i64"
    );
    assert_eq!(
        WorkshopItemChangelog::parse("<div class=\"workshopAnnouncement\"><p id=\"12\">x</p></div>")
            .unwrap_err(),
        "no appid"
    );
    assert_eq!(
        WorkshopItemChangelog::from_parts(Some("12".to_string()), Some("1".to_string()), None)
            .unwrap_err(),
        "no workshop url"
    );
    let c = WorkshopItemChangelog::from_parts(
        Some("-12".to_string()),
        Some("602960".to_string()),
        Some("https://steamcommunity.com/sharedfiles/filedetails/?id=5".to_string()),
    )
    .unwrap();
    assert_eq!(c.latest_timestamp, -12);
    assert_eq!(c.appid, "602960");
    assert_eq!(c.workshopid, id("5"));
}

#[test]
fn a_collection_from_its_links() {
    let page = WorkshopCollectionPage::from_parts(vec![
        None,
        Some("https://steamcommunity.com/sharedfiles/filedetails/?id=1".to_string()),
        Some("nonsense".to_string()),
        Some("https://steamcommunity.com/workshop/filedetails/?id=2x".to_string()),
    ])
    .unwrap();
    assert_eq!(page.items, vec![id("1"), id("2")]);
    assert_eq!(
        WorkshopCollectionPage::from_parts(vec![None, Some("nonsense".to_string())]).unwrap_err(),
        "no collection items found"
    );
    assert_eq!(
        WorkshopCollectionPage::from_parts(vec![]).unwrap_err(),
        "no collection items found"
    );
    let page = EXAMPLE_COLLECTION.parse::<WorkshopCollectionPage>().unwrap();
    assert_eq!(page.items.len(), 4);
    assert_eq!(page.items[3], id("42"));
}
