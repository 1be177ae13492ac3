use satyanaash::keywords::substitute_keywords;
use uuid::Uuid;

#[test]
fn keywords_test_substitute_keywords() {
    let input = "Hello $RandomName, your phone number is $RandomPhone";
    let output = substitute_keywords(input);
    assert!(output.contains("Hello "));
    assert!(!output.contains("$RandomName"));
    assert!(output.contains(", your phone number is "));
    assert!(!output.contains("$RandomPhone"));
}

#[test]
fn test_case_test_substitute_keywords() {
    let input = "Hello $RandomName, your phone number is $RandomPhone";
    let output = substitute_keywords(input);
    assert!(output.contains("Hello "));
    assert!(!output.contains("$RandomName"));
    assert!(output.contains(", your phone number is "));
    assert!(!output.contains("$RandomPhone"));
}

#[test]
fn test_uuid_substitution_single() {
    let input = "Your unique ID is $UUID.";
    let output = substitute_keywords(input);
    assert!(!output.contains("$UUID"));
    let uuid_part = output.replace("Your unique ID is ", "").replace('.', "");
    assert!(Uuid::parse_str(&uuid_part).is_ok());
}

#[test]
fn test_uuid_substitution_multiple() {
    let input = "First UUID: $UUID, Second UUID: $UUID.";
    let output = substitute_keywords(input);
    assert!(!output.contains("$UUID"));
    let parts: Vec<&str> = output.split(", ").collect();
    let first_uuid = parts[0].replace("First UUID: ", "");
    let second_uuid = parts[1].replace("Second UUID: ", "").replace('.', "");
    assert!(Uuid::parse_str(&first_uuid).is_ok());
    assert!(Uuid::parse_str(&second_uuid).is_ok());
    assert_ne!(first_uuid, second_uuid);
}

#[test]
fn test_email_substitution_multiple() {
    let input = "Email 1: $RandomEmail(), Email 2: $RandomEmail(\"example.com\"), Email 3: $RandomEmail(\"test.com\")";
    let output = substitute_keywords(input);
    assert!(!output.contains("$RandomEmail()"));
    assert!(!output.contains("$RandomEmail(\"example.com\")"));
    assert!(!output.contains("$RandomEmail(\"test.com\")"));
    let parts: Vec<&str> = output.split(", ").collect();
    let email1 = parts[0].replace("Email 1: ", "");
    let email2 = parts[1].replace("Email 2: ", "");
    let email3 = parts[2].replace("Email 3: ", "");
    assert!(email1.contains('@'));
    assert!(email2.contains("@example.com"));
    assert!(email3.contains("@test.com"));
    assert_ne!(email1, email2);
    assert_ne!(email1, email3);
    assert_ne!(email2, email3);
}

#[test]
fn test_random_company_substitution() {
    let input = "Company 1: $RandomCompany, Company 2: $RandomCompany, Company 3: $RandomCompany.";
    let output = substitute_keywords(input);
    assert!(!output.contains("$RandomCompany"));
    let parts: Vec<&str> = output.split(", ").collect();
    let company1 = parts[0].replace("Company 1: ", "");
    let company2 = parts[1].replace("Company 2: ", "");
    let company3 = parts[2].replace("Company 3: ", "").replace('.', "");
    assert_ne!(company1, company2);
    assert_ne!(company1, company3);
    assert_ne!(company2, company3);
}

#[test]
fn test_random_phone_substitution() {
    let input = "Phone 1: $RandomPhone, Phone 2: $RandomPhone, Phone 3: $RandomPhone.";
    let output = substitute_keywords(input);
    assert!(!output.contains("$RandomPhone"));
    let parts: Vec<&str> = output.split(", ").collect();
    let phone1 = parts[0].replace("Phone 1: ", "");
    let phone2 = parts[1].replace("Phone 2: ", "");
    let phone3 = parts[2].replace("Phone 3: ", "").replace('.', "");
    assert_ne!(phone1, phone2);
    assert_ne!(phone1, phone3);
    assert_ne!(phone2, phone3);
}

#[test]
fn test_random_address_substitution() {
    let input = "Address 1: $RandomAddress, Address 2: $RandomAddress, Address 3: $RandomAddress.";
    let output = substitute_keywords(input);
    assert!(!output.contains("$RandomAddress"));
    let parts: Vec<&str> = output.split(", ").collect();
    let address1 = parts[0].replace("Address 1: ", "");
    let address2 = parts[1].replace("Address 2: ", "");
    let address3 = parts[2].replace("Address 3: ", "").replace('.', "");
    assert_ne!(address1, address2);
    assert_ne!(address1, address3);
    assert_ne!(address2, address3);
}

#[test]
fn test_random_name_substitution() {
    let input = "Name 1: $RandomName, Name 2: $RandomName, Name 3: $RandomName.";
    let output = substitute_keywords(input);
    assert!(!output.contains("$RandomName"));
    let parts: Vec<&str> = output.split(", ").collect();
    let name1 = parts[0].replace("Name 1: ", "");
    let name2 = parts[1].replace("Name 2: ", "");
    let name3 = parts[2].replace("Name 3: ", "").replace('.', "");
    assert_ne!(name1, name2);
    assert_ne!(name1, name3);
    assert_ne!(name2, name3);
}

#[test]
fn keyword_free_text_is_unchanged() {
    let input = "plain text, no tokens: {{env:HOME}} 100%";
    assert_eq!(substitute_keywords(input), input);
    assert_eq!(substitute_keywords(""), "");
}

#[test]
fn unknown_dollar_words_are_kept() {
    assert_eq!(substitute_keywords("cost: $5 and $Random"), "cost: $5 and $Random");
}

#[test]
fn bare_email_token_followed_by_text_is_expanded_alone() {
    let output = substitute_keywords("$RandomEmail(oops");
    assert!(output.ends_with("(oops"));
    assert!(!output.contains("$RandomEmail"));
    assert!(output.contains('@'));
}

#[test]
fn email_domain_may_be_padded_with_spaces() {
    let output = substitute_keywords("$RandomEmail( \"corp.example\" )");
    assert!(output.ends_with("@corp.example"));
    assert!(!output.contains('('));
}

#[test]
fn a_token_inside_a_quoted_domain_is_expanded_in_its_turn() {
    let output = substitute_keywords("$RandomEmail(\"a$RandomEmail\")");
    assert!(!output.contains("$RandomEmail"));
    assert!(!output.contains('$'));
    assert_eq!(output.matches('@').count(), 2);

    let output = substitute_keywords("$RandomEmail(\"$UUID.example\")");
    assert!(!output.contains('$'));
    assert!(output.ends_with(".example"));
    let uuid = &output[output.len() - 44..output.len() - 8];
    assert!(Uuid::parse_str(uuid).is_ok());
    assert_eq!(uuid, uuid.to_lowercase());
}

#[test]
fn generated_values_hold_no_dollar_and_no_token_is_left() {
    let input = "$RandomName|$RandomPhone|$RandomAddress|$RandomCompany|$RandomEmail|$RandomEmail()|$UUID";
    let output = substitute_keywords(input);
    assert!(!output.contains('$'));
    let parts: Vec<&str> = output.split('|').collect();
    assert_eq!(parts.len(), 7);
    assert!(parts.iter().all(|p| !p.is_empty()));
    assert!(parts[4].contains('@'));
    assert!(parts[5].contains('@'));
    assert_eq!(parts[6].len(), 36);
    for (i, c) in parts[6].chars().enumerate() {
        if i == 8 || i == 13 || i == 18 || i == 23 {
            assert_eq!(c, '-');
        } else {
            assert!(c.is_ascii_digit() || ('a'..='f').contains(&c));
        }
    }
}

#[test]
fn text_that_only_looks_like_a_token_after_a_replacement_is_expanded_too() {
    let output = substitute_keywords("$UU$UUIDID");
    assert!(!output.contains("$UUID"));
    assert!(output.starts_with("$UU"));
    assert!(output.ends_with("ID"));
    assert_eq!(output.len(), 3 + 36 + 2);
}
