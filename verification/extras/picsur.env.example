base_url=https://picsur.example.com
api_key=your-picsur-api-key
